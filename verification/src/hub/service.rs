//! The models directory as a catalogue, and the downloader. What is on disk
//! is read by the caller and handed in as a list of files; every decision
//! about it (what a ref finds, what `list` shows, whether a pull needs to
//! download) is made here.
use vstd::prelude::*;

use crate::hub::logic::{SelectorView, opt_view, 
    choose_gguf, flattened, gguf_choice, local_dir_name, parse_ref, ref_meaning, Choice, GgufSelector,
    Source, SourceView,
};
use crate::kernel::error::{Error, Result};
use crate::kernel::model_ref::ModelRef;
use crate::text::{
    split_once, decimal, join, join_strings, find_char, split_once_char, after_last, rfind_index, chars_of, debug_quoted, debug_str, decimal_string, join_path, joined_path, rfind_char,
    starts_with, str_eq, str_starts_with, string_from_chars, string_views, trim_end, trim_end_text,
};

verus! {

/// One file in a remote repository.
#[derive(Debug, Clone, PartialEq, Eq)]
pub struct RemoteFile {
    pub name: String,
    pub size: Option<u64>,
}

/// A GGUF in the models directory (or pointed at by a path ref).
#[derive(Debug, Clone, PartialEq, Eq)]
pub struct LocalModel {
    /// The path relative to the models directory, e.g.
    /// `Qwen--Qwen2.5-0.5B-Instruct-GGUF/qwen2.5-0.5b-instruct-q4_k_m.gguf`,
    /// or the whole path for a file outside it.
    pub name: String,
    pub path: String,
    pub size_bytes: u64,
}

/// A regular file found on disk, with its size.
#[derive(Debug, Clone, PartialEq, Eq)]
pub struct DiskFile {
    pub path: String,
    pub size: u64,
}

/// Something that can list and fetch a repository's files.
pub trait Downloader {
    fn list_files(&self, repo: &str, revision: Option<&str>) -> Result<Vec<RemoteFile>>;

    /// Fetch `file` into `dest_dir`, calling `progress` with bytes done and
    /// bytes total as it goes, and return the file's path.
    fn download<F: FnMut(u64, u64)>(
        &self,
        repo: &str,
        revision: Option<&str>,
        file: &str,
        dest_dir: &str,
        progress: &mut F,
    ) -> Result<String>;
}

/// The last component of a path.
pub open spec fn file_name_of(p: Seq<char>) -> Seq<char> {
    match rfind_char(p, '/') {
        Some(i) => p.skip(i as int + 1),
        None => p,
    }
}

/// A file name's extension: what follows its last `.`, unless that dot
/// starts the name.
pub open spec fn extension_of(name: Seq<char>) -> Option<Seq<char>> {
    match rfind_char(name, '.') {
        Some(i) => if i > 0 {
            Some(name.skip(i as int + 1))
        } else {
            None
        },
        None => None,
    }
}

/// `path` relative to `dir` when it lies inside it, else `path` itself.
pub open spec fn relative_name(dir: Seq<char>, path: Seq<char>) -> Seq<char> {
    let d = trim_end(dir, '/');
    if starts_with(path, d + "/"@) {
        path.skip(d.len() as int + 1)
    } else {
        path
    }
}

/// A model's fields as text.
pub open spec fn model_view(m: LocalModel) -> (Seq<char>, Seq<char>, u64) {
    (m.name@, m.path@, m.size_bytes)
}

pub open spec fn models_view(ms: Seq<LocalModel>) -> Seq<(Seq<char>, Seq<char>, u64)> {
    ms.map_values(|m: LocalModel| model_view(m))
}

/// The model a file of the catalogue is.
pub open spec fn model_of(dir: Seq<char>, f: DiskFile) -> (Seq<char>, Seq<char>, u64) {
    (relative_name(dir, f.path@), f.path@, f.size)
}

/// Whether `path` lies directly in `dir` or directly in one of its
/// subdirectories: the two levels the catalogue spans.
pub open spec fn in_catalogue(dir: Seq<char>, path: Seq<char>) -> bool {
    let d = trim_end(dir, '/');
    &&& starts_with(path, d + "/"@)
    &&& path.len() > d.len() + 1
    &&& match split_once(path.skip(d.len() as int + 1), '/') {
        Some((_, rest)) => find_char(rest, '/') is None,
        None => true,
    }
}

/// The GGUFs among `files`, as models, in their order.
pub open spec fn gguf_models(dir: Seq<char>, files: Seq<DiskFile>) -> Seq<(Seq<char>, Seq<char>, u64)>
    decreases files.len(),
{
    if files.len() == 0 {
        Seq::empty()
    } else if in_catalogue(dir, files.last().path@) && extension_of(file_name_of(files.last().path@))
        == Some("gguf"@) {
        gguf_models(dir, files.drop_last()).push(model_of(dir, files.last()))
    } else {
        gguf_models(dir, files.drop_last())
    }
}

/// Text order: character by character, a prefix first.
pub open spec fn lex_le(a: Seq<char>, b: Seq<char>) -> bool
    decreases a.len(),
{
    if a.len() == 0 {
        true
    } else if b.len() == 0 {
        false
    } else if a[0] != b[0] {
        a[0] < b[0]
    } else {
        lex_le(a.drop_first(), b.drop_first())
    }
}

pub proof fn lemma_lex_total(a: Seq<char>, b: Seq<char>)
    ensures
        lex_le(a, b) || lex_le(b, a),
    decreases a.len(),
{
    if a.len() > 0 && b.len() > 0 && a[0] == b[0] {
        lemma_lex_total(a.drop_first(), b.drop_first());
    }
}

pub proof fn lemma_lex_trans(a: Seq<char>, b: Seq<char>, c: Seq<char>)
    requires
        lex_le(a, b),
        lex_le(b, c),
    ensures
        lex_le(a, c),
    decreases a.len(),
{
    if a.len() > 0 && b.len() > 0 && c.len() > 0 && a[0] == b[0] && b[0] == c[0] {
        lemma_lex_trans(a.drop_first(), b.drop_first(), c.drop_first());
    }
}

/// `lex_le` on two texts.
fn text_le(a: &str, b: &str) -> (r: bool)
    ensures
        r == lex_le(a@, b@),
{
    let x = chars_of(a);
    let y = chars_of(b);
    let mut i: usize = 0;
    assert(a@.skip(0) =~= a@);
    assert(b@.skip(0) =~= b@);
    while i < x.len() && i < y.len() && x[i] == y[i]
        invariant
            x@ == a@,
            y@ == b@,
            i <= x@.len(),
            i <= y@.len(),
            lex_le(a@, b@) == lex_le(a@.skip(i as int), b@.skip(i as int)),
        decreases x@.len() - i,
    {
        assert(a@.skip(i as int).drop_first() =~= a@.skip(i + 1));
        assert(b@.skip(i as int).drop_first() =~= b@.skip(i + 1));
        i += 1;
    }
    if i == x.len() {
        true
    } else if i == y.len() {
        false
    } else {
        assert(a@.skip(i as int)[0] == x@[i as int]);
        assert(b@.skip(i as int)[0] == y@[i as int]);
        x[i] < y[i]
    }
}

/// Sorted by name.
pub open spec fn sorted_by_name(ms: Seq<LocalModel>) -> bool {
    forall|i: int, j: int| 0 <= i < j < ms.len() ==> lex_le(ms[i].name@, ms[j].name@)
}

/// The catalogue and the downloader.
pub struct Hub<D: Downloader> {
    downloader: D,
    models_dir: String,
}

impl<D: Downloader> Hub<D> {
    pub closed spec fn dir(&self) -> Seq<char> {
        self.models_dir@
    }

    /// The downloader the hub fetches with.
    pub closed spec fn fetcher(&self) -> D {
        self.downloader
    }

    pub fn new(downloader: D, models_dir: &str) -> (h: Self)
        ensures
            h.dir() == models_dir@,
            h.fetcher() == downloader,
    {
        Hub { downloader, models_dir: models_dir.to_owned() }
    }

    pub fn models_dir(&self) -> (r: &str)
        ensures
            r@ == self.dir(),
    {
        self.models_dir.as_str()
    }

    pub fn downloader(&self) -> (r: &D)
        ensures
            *r == self.fetcher(),
    {
        &self.downloader
    }

    pub fn selector_is_file(select: &GgufSelector) -> (b: bool)
        ensures
            b == (select is File),
    {
        match select {
            GgufSelector::File(_) => true,
            _ => false,
        }
    }

    /// The model a file at `path` of `size` bytes is: named relative to the
    /// models directory when it lies inside it.
    pub fn local_model(&self, path: &str, size: u64) -> (m: LocalModel)
        ensures
            model_view(m) == (relative_name(self.dir(), path@), path@, size),
    {
        proof {
            reveal_strlit("/");
        }
        let d = trim_end_text(self.models_dir.as_str(), '/');
        let mut prefix = d.clone();
        prefix.append("/");
        let name = if str_starts_with(path, prefix.as_str()) {
            let cs = chars_of(path);
            let k = prefix.as_str().unicode_len();
            assert(k == d@.len() + 1);
            let n = string_from_chars(&cs, k, cs.len());
            assert(n@ =~= path@.skip(d@.len() as int + 1));
            n
        } else {
            path.to_owned()
        };
        LocalModel { name, path: path.to_owned(), size_bytes: size }
    }
}


fn in_catalogue_exec(dir: &str, path: &str) -> (b: bool)
    ensures
        b == in_catalogue(dir@, path@),
{
    proof {
        reveal_strlit("/");
    }
    let d = trim_end_text(dir, '/');
    let mut prefix = d.clone();
    prefix.append("/");
    if !str_starts_with(path, prefix.as_str()) {
        return false;
    }
    let cs = chars_of(path);
    let k = prefix.as_str().unicode_len();
    if cs.len() <= k {
        return false;
    }
    let rest = string_from_chars(&cs, k, cs.len());
    assert(rest@ =~= path@.skip(d@.len() as int + 1));
    match split_once_char(rest.as_str(), '/') {
        Some((_, tail)) => split_once_char(tail.as_str(), '/').is_none(),
        None => true,
    }
}

/// Whether a path names a `.gguf` file.
fn is_gguf_path(path: &str) -> (b: bool)
    ensures
        b == (extension_of(file_name_of(path@)) == Some("gguf"@)),
{
    let name = after_last(path, '/');
    match rfind_index(name.as_str(), '.') {
        Some(i) => {
            if i > 0 {
                let e = after_last(name.as_str(), '.');
                assert(extension_of(name@) == Some(e@));
                let b = str_eq(e.as_str(), "gguf");
                assert(b == (e@ == "gguf"@));
                b
            } else {
                false
            }
        },
        None => false,
    }
}

/// `v` ordered by name; the same models, each once more.
fn sort_by_name(v: Vec<LocalModel>) -> (r: Vec<LocalModel>)
    ensures
        sorted_by_name(r@),
        models_view(r@).to_multiset() == models_view(v@).to_multiset(),
{
    broadcast use vstd::seq_lib::group_to_multiset_ensures;

    let ghost all = models_view(v@).to_multiset();
    let mut rest = v;
    let mut out: Vec<LocalModel> = Vec::new();
    assert(models_view(out@).to_multiset() =~= vstd::multiset::Multiset::empty());
    while rest.len() > 0
        invariant
            sorted_by_name(out@),
            models_view(out@).to_multiset().add(models_view(rest@).to_multiset()) == all,
        decreases rest@.len(),
    {
        let ghost before_rest = rest@;
        let x = match rest.pop() {
            Some(x) => x,
            None => {
                assert(false);
                return out;
            },
        };
        assert(before_rest =~= rest@.push(x));
        assert(models_view(before_rest) =~= models_view(rest@).push(model_view(x)));
        let mut pos: usize = 0;
        while pos < out.len() && text_le(out[pos].name.as_str(), x.name.as_str())
            invariant
                pos <= out@.len(),
                forall|k: int| 0 <= k < pos ==> lex_le(out@[k].name@, x.name@),
            decreases out@.len() - pos,
        {
            pos += 1;
        }
        let ghost old_out = out@;
        out.insert(pos, x);
        proof {
            assert(out@ =~= old_out.insert(pos as int, x));
            assert(models_view(out@) =~= models_view(old_out).insert(pos as int, model_view(x)));
            vstd::seq_lib::to_multiset_insert(models_view(old_out), pos as int, model_view(x));
            vstd::seq_lib::to_multiset_build(models_view(rest@), model_view(x));
            assert(models_view(out@).to_multiset().add(models_view(rest@).to_multiset()) =~= models_view(
                old_out,
            ).to_multiset().add(models_view(before_rest).to_multiset()));
            assert forall|i: int, j: int| 0 <= i < j < out@.len() implies lex_le(
                out@[i].name@,
                out@[j].name@,
            ) by {
                if i < pos && j == pos {
                } else if i == pos && j > pos {
                    lemma_lex_total(old_out[pos as int].name@, x.name@);
                    if j - 1 > pos {
                        lemma_lex_trans(x.name@, old_out[pos as int].name@, old_out[j - 1].name@);
                    }
                } else if i < pos && j > pos {
                    assert(out@[j] == old_out[j - 1]);
                } else if i > pos {
                    assert(out@[i] == old_out[i - 1]);
                    assert(out@[j] == old_out[j - 1]);
                }
            }
        }
    }
    assert(rest@ =~= Seq::<LocalModel>::empty());
    assert(models_view(rest@) =~= Seq::<(Seq<char>, Seq<char>, u64)>::empty());
    out
}

impl<D: Downloader> Hub<D> {
    /// The GGUFs of the catalogue in the order `disk` holds them.
    fn catalogue(&self, disk: &[DiskFile]) -> (r: Vec<LocalModel>)
        ensures
            models_view(r@) == gguf_models(self.dir(), disk@),
    {
        let mut found: Vec<LocalModel> = Vec::new();
        let mut i: usize = 0;
        while i < disk.len()
            invariant
                i <= disk@.len(),
                models_view(found@) == gguf_models(self.dir(), disk@.take(i as int)),
            decreases disk@.len() - i,
        {
            let f = &disk[i];
            assert(disk@.take(i + 1).drop_last() =~= disk@.take(i as int));
            assert(disk@.take(i + 1).last() == *f);
            if in_catalogue_exec(self.models_dir.as_str(), f.path.as_str()) && is_gguf_path(f.path.as_str()) {
                let ghost before = found@;
                let m = self.local_model(f.path.as_str(), f.size);
                found.push(m);
                assert(models_view(found@) =~= models_view(before).push(model_view(m)));
            }
            i += 1;
        }
        assert(disk@.take(i as int) =~= disk@);
        found
    }

    /// Every GGUF of the catalogue (directly in the models directory or
    /// directly in one of its subdirectories), sorted by name. `disk` holds
    /// the regular files found under the models directory.
    pub fn list(&self, disk: &[DiskFile]) -> (r: Vec<LocalModel>)
        ensures
            sorted_by_name(r@),
            models_view(r@).to_multiset() == gguf_models(self.dir(), disk@).to_multiset(),
    {
        sort_by_name(self.catalogue(disk))
    }
}


/// The size of the first file of `disk` at `path`.
pub open spec fn disk_size(disk: Seq<DiskFile>, path: Seq<char>) -> Option<u64>
    decreases disk.len(),
{
    if disk.len() == 0 {
        None
    } else if disk[0].path@ == path {
        Some(disk[0].size)
    } else {
        disk_size(disk.drop_first(), path)
    }
}

fn disk_size_of(disk: &[DiskFile], path: &str) -> (r: Option<u64>)
    ensures
        r == disk_size(disk@, path@),
{
    let mut i: usize = 0;
    assert(disk@.skip(0) =~= disk@);
    while i < disk.len()
        invariant
            i <= disk@.len(),
            disk_size(disk@, path@) == disk_size(disk@.skip(i as int), path@),
        decreases disk@.len() - i,
    {
        assert(disk@.skip(i as int)[0] == disk@[i as int]);
        if str_eq(disk[i].path.as_str(), path) {
            return Some(disk[i].size);
        }
        assert(disk@.skip(i as int).drop_first() =~= disk@.skip(i + 1));
        i += 1;
    }
    None
}

/// The name of `path` as an entry of the directory `dir`, if it is one.
pub open spec fn child_name(dir: Seq<char>, path: Seq<char>) -> Option<Seq<char>> {
    let d = trim_end(dir, '/');
    if starts_with(path, d + "/"@) && path.len() > d.len() + 1 && find_char(
        path.skip(d.len() as int + 1),
        '/',
    ) is None {
        Some(path.skip(d.len() as int + 1))
    } else {
        None
    }
}

/// The names of the files of `disk` directly in `dir`, in their order.
pub open spec fn children(disk: Seq<DiskFile>, dir: Seq<char>) -> Seq<Seq<char>>
    decreases disk.len(),
{
    if disk.len() == 0 {
        Seq::empty()
    } else {
        match child_name(dir, disk.last().path@) {
            Some(n) => children(disk.drop_last(), dir).push(n),
            None => children(disk.drop_last(), dir),
        }
    }
}

fn child_of(dir: &str, path: &str) -> (r: Option<String>)
    ensures
        match child_name(dir@, path@) {
            Some(n) => r matches Some(x) && x@ == n,
            None => r is None,
        },
{
    proof {
        reveal_strlit("/");
    }
    let d = trim_end_text(dir, '/');
    let mut prefix = d.clone();
    prefix.append("/");
    if !str_starts_with(path, prefix.as_str()) {
        return None;
    }
    let cs = chars_of(path);
    let k = prefix.as_str().unicode_len();
    if cs.len() <= k {
        return None;
    }
    let rest = string_from_chars(&cs, k, cs.len());
    assert(rest@ =~= path@.skip(d@.len() as int + 1));
    if split_once_char(rest.as_str(), '/').is_some() {
        return None;
    }
    Some(rest)
}

fn children_of(disk: &[DiskFile], dir: &str) -> (r: Vec<String>)
    ensures
        string_views(r@) == children(disk@, dir@),
{
    let mut out: Vec<String> = Vec::new();
    let mut i: usize = 0;
    while i < disk.len()
        invariant
            i <= disk@.len(),
            string_views(out@) == children(disk@.take(i as int), dir@),
        decreases disk@.len() - i,
    {
        assert(disk@.take(i + 1).drop_last() =~= disk@.take(i as int));
        assert(disk@.take(i + 1).last() == disk@[i as int]);
        match child_of(dir, disk[i].path.as_str()) {
            Some(n) => {
                let ghost before = out@;
                out.push(n);
                assert(string_views(out@) =~= string_views(before).push(n@));
            },
            None => {},
        }
        i += 1;
    }
    assert(disk@.take(i as int) =~= disk@);
    out
}

/// `~` and `~/x` with the home directory filled in, when it is known.
pub open spec fn home_expanded(p: Seq<char>, home: Option<Seq<char>>) -> Seq<char> {
    match home {
        Some(h) => if p == "~"@ {
            joined_path(h, Seq::empty())
        } else if starts_with(p, "~/"@) {
            joined_path(h, p.skip(2))
        } else {
            p
        },
        None => p,
    }
}

/// A path with `~` (alone or before `/`) standing for the home directory,
/// when there is one.
pub fn expand_home(p: &str, home: Option<&str>) -> (r: String)
    ensures
        r@ == home_expanded(p@, match home {
            Some(h) => Some(h@),
            None => None,
        }),
{
    proof {
        reveal_strlit("~/");
        reveal_strlit("");
        assert(""@ =~= Seq::<char>::empty());
    }
    match home {
        Some(h) => {
            if str_eq(p, "~") {
                join_path(h, "")
            } else if str_starts_with(p, "~/") {
                let cs = chars_of(p);
                let rest = string_from_chars(&cs, 2, cs.len());
                assert(rest@ =~= p@.skip(2));
                join_path(h, rest.as_str())
            } else {
                p.to_owned()
            }
        },
        None => p.to_owned(),
    }
}

/// Whether a catalogue model answers to a bare file name: its file is
/// called `name` or `name.gguf`.
pub open spec fn answers_to(m: (Seq<char>, Seq<char>, u64), name: Seq<char>) -> bool {
    file_name_of(m.1) == name || file_name_of(m.1) == name + ".gguf"@
}

fn answers_to_exec(m: &LocalModel, name: &str) -> (b: bool)
    ensures
        b == answers_to(model_view(*m), name@),
{
    let f = after_last(m.path.as_str(), '/');
    let mut g = name.to_owned();
    g.append(".gguf");
    str_eq(f.as_str(), name) || str_eq(f.as_str(), g.as_str())
}


/// The models of `ms` that answer to `name`, in their order.
pub open spec fn answering(ms: Seq<(Seq<char>, Seq<char>, u64)>, name: Seq<char>) -> Seq<
    (Seq<char>, Seq<char>, u64),
>
    decreases ms.len(),
{
    if ms.len() == 0 {
        Seq::empty()
    } else if answers_to(ms.last(), name) {
        answering(ms.drop_last(), name).push(ms.last())
    } else {
        answering(ms.drop_last(), name)
    }
}

/// `res` is the model at `p` when `disk` has a file there, and nothing
/// otherwise.
pub open spec fn found_at(res: Result<Option<LocalModel>>, dir: Seq<char>, disk: Seq<DiskFile>, p: Seq<char>) -> bool {
    match disk_size(disk, p) {
        Some(sz) => res matches Ok(Some(m)) && model_view(m) == (relative_name(dir, p), p, sz),
        None => res matches Ok(None),
    }
}

/// What a bare name finds: the file of that name, or of that name with
/// `.gguf`, in the models directory; else the one catalogue model whose
/// file answers to it; nothing when none does; a refusal naming them when
/// several do.
pub open spec fn local_found(res: Result<Option<LocalModel>>, dir: Seq<char>, disk: Seq<DiskFile>, name: Seq<char>) -> bool {
    let c1 = joined_path(dir, name);
    let c2 = joined_path(dir, name + ".gguf"@);
    if disk_size(disk, c1) is Some {
        found_at(res, dir, disk, c1)
    } else if disk_size(disk, c2) is Some {
        found_at(res, dir, disk, c2)
    } else {
        let hits = answering(gguf_models(dir, disk), name);
        if hits.len() == 0 {
            res matches Ok(None)
        } else if hits.len() == 1 {
            res matches Ok(Some(m)) && model_view(m) == hits[0]
        } else {
            res matches Err(Error::Invalid(x)) && exists|ms: Seq<LocalModel>|
                #![trigger models_view(ms)]
                sorted_by_name(ms) && models_view(ms).to_multiset() == hits.to_multiset() && x@
                    == debug_quoted(name) + " matches "@ + decimal(hits.len()) + " models: "@ + join(
                    model_names(ms),
                    ", "@,
                ) + "; use the full name"@
        }
    }
}

pub open spec fn model_names(ms: Seq<LocalModel>) -> Seq<Seq<char>> {
    ms.map_values(|m: LocalModel| m.name@)
}

pub open spec fn opt_text(o: Option<&str>) -> Option<Seq<char>> {
    match o {
        Some(h) => Some(h@),
        None => None,
    }
}

impl<D: Downloader> Hub<D> {
    fn model_at(&self, disk: &[DiskFile], p: &str) -> (res: Result<Option<LocalModel>>)
        ensures
            found_at(res, self.dir(), disk@, p@),
    {
        match disk_size_of(disk, p) {
            Some(sz) => Ok(Some(self.local_model(p, sz))),
            None => Ok(None),
        }
    }

    fn find_local(&self, name: &str, disk: &[DiskFile]) -> (res: Result<Option<LocalModel>>)
        ensures
            local_found(res, self.dir(), disk@, name@),
    {
        let c1 = join_path(self.models_dir.as_str(), name);
        if disk_size_of(disk, c1.as_str()).is_some() {
            return self.model_at(disk, c1.as_str());
        }
        let mut n = name.to_owned();
        n.append(".gguf");
        let c2 = join_path(self.models_dir.as_str(), n.as_str());
        if disk_size_of(disk, c2.as_str()).is_some() {
            return self.model_at(disk, c2.as_str());
        }
        let all = self.catalogue(disk);
        let ghost all_v = models_view(all@);
        let mut hits: Vec<LocalModel> = Vec::new();
        let mut rest = all;
        let mut k: usize = 0;
        let mut i: usize = 0;
        while i < rest.len()
            invariant
                i <= rest@.len(),
                models_view(rest@) == all_v,
                models_view(hits@) == answering(all_v.take(i as int), name@),
            decreases rest@.len() - i,
        {
            assert(all_v.take(i + 1).drop_last() =~= all_v.take(i as int));
            assert(all_v.take(i + 1).last() == model_view(rest@[i as int]));
            if answers_to_exec(&rest[i], name) {
                let m = LocalModel {
                    name: rest[i].name.clone(),
                    path: rest[i].path.clone(),
                    size_bytes: rest[i].size_bytes,
                };
                let ghost before = hits@;
                hits.push(m);
                assert(models_view(hits@) =~= models_view(before).push(model_view(m)));
            }
            i += 1;
        }
        assert(all_v.take(i as int) =~= all_v);
        if hits.len() == 0 {
            return Ok(None);
        }
        if hits.len() == 1 {
            let m = hits.pop();
            match m {
                Some(m) => {
                    return Ok(Some(m));
                },
                None => {
                    return Ok(None);
                },
            }
        }
        let count = hits.len();
        let sorted = sort_by_name(hits);
        let mut names: Vec<String> = Vec::new();
        let mut j: usize = 0;
        while j < sorted.len()
            invariant
                j <= sorted@.len(),
                string_views(names@) == model_names(sorted@.take(j as int)),
            decreases sorted@.len() - j,
        {
            let ghost before = names@;
            names.push(sorted[j].name.clone());
            assert(string_views(names@) =~= string_views(before).push(sorted@[j as int].name@));
            assert(model_names(sorted@.take(j + 1)) =~= model_names(sorted@.take(j as int)).push(
                sorted@[j as int].name@,
            ));
            j += 1;
        }
        assert(sorted@.take(j as int) =~= sorted@);
        let mut m = debug_str(name);
        m.append(" matches ");
        let c = decimal_string(count as u64);
        m.append(c.as_str());
        m.append(" models: ");
        let jn = join_strings(&names, ", ");
        m.append(jn.as_str());
        m.append("; use the full name");
        Err(Error::Invalid(m))
    }
}


/// The directory a repository's files are kept in.
pub open spec fn repo_dir(dir: Seq<char>, repo: Seq<char>) -> Seq<char> {
    joined_path(dir, flattened(repo))
}

/// What `find` answers for a ref, given what is on disk.
pub open spec fn find_outcome(
    res: Result<Option<LocalModel>>,
    r: Seq<char>,
    dir: Seq<char>,
    disk: Seq<DiskFile>,
    home: Option<Seq<char>>,
) -> bool {
    match ref_meaning(r) {
        Err(m) => res matches Err(Error::Invalid(x)) && x@ == m,
        Ok(SourceView::Runtime { runtime, model }) => res matches Err(Error::Invalid(x)) && x@ == r
            + " is served by "@ + runtime + ", not a file; ask the runtime for "@ + debug_quoted(
            model,
        ),
        Ok(SourceView::Path(p)) => found_at(res, dir, disk, home_expanded(p, home)),
        Ok(SourceView::Hf { repo, select, .. }) => match gguf_choice(
            children(disk, repo_dir(dir, repo)),
            select,
        ) {
            Choice::Chosen(f) => found_at(res, dir, disk, joined_path(repo_dir(dir, repo), f)),
            _ => res matches Ok(None),
        },
        Ok(SourceView::Local(name)) => local_found(res, dir, disk, name),
    }
}

/// What `resolve` answers: what `find` does, except that a path or a bare
/// name that finds nothing is not found.
pub open spec fn resolve_outcome(
    res: Result<Option<LocalModel>>,
    r: Seq<char>,
    dir: Seq<char>,
    disk: Seq<DiskFile>,
    home: Option<Seq<char>>,
) -> bool {
    match ref_meaning(r) {
        Ok(SourceView::Path(p)) => {
            let e = home_expanded(p, home);
            match disk_size(disk, e) {
                Some(_) => found_at(res, dir, disk, e),
                None => res matches Err(Error::NotFound(x)) && x@ == "model file "@ + e,
            }
        },
        Ok(SourceView::Local(name)) => if local_found(
            Ok(None),
            dir,
            disk,
            name,
        ) {
            res matches Err(Error::NotFound(x)) && x@ == debug_quoted(name) + " in "@
                + dir + "; see `infy models`, or pull one with `infy pull hf:owner/repo`"@
        } else {
            local_found(res, dir, disk, name)
        },
        _ => find_outcome(res, r, dir, disk, home),
    }
}

/// What `find` finds here, `resolve` resolves to: the same model.
pub proof fn law_find_and_resolve_agree(
    r: Seq<char>,
    dir: Seq<char>,
    disk: Seq<DiskFile>,
    home: Option<Seq<char>>,
    found: Result<Option<LocalModel>>,
    resolved: Result<Option<LocalModel>>,
)
    requires
        find_outcome(found, r, dir, disk, home),
        resolve_outcome(resolved, r, dir, disk, home),
        found matches Ok(Some(_)),
    ensures
        resolved matches Ok(Some(m)) && model_view(m) == model_view(found->Ok_0->Some_0),
{
}

/// How a pull goes on after its decisions.
pub enum PullStep {
    /// A local ref's file, already here.
    Here(LocalModel),
    /// The chosen file is here with the size the repository lists; `file`
    /// and `size` are what the progress report shows.
    Present { model: LocalModel, file: String, size: u64 },
    /// Download `file` of `repo` at `revision` into `dir`.
    Fetch { repo: String, revision: Option<String>, file: String, dir: String },
}

/// The size the listing gives the first file called `name`.
pub open spec fn listed_size(listing: Seq<RemoteFile>, name: Seq<char>) -> Option<u64>
    decreases listing.len(),
{
    if listing.len() == 0 {
        None
    } else if listing[0].name@ == name {
        listing[0].size
    } else {
        listed_size(listing.drop_first(), name)
    }
}

pub open spec fn remote_names(listing: Seq<RemoteFile>) -> Seq<Seq<char>> {
    listing.map_values(|f: RemoteFile| f.name@)
}

fn listed_size_of(listing: &Vec<RemoteFile>, name: &str) -> (r: Option<u64>)
    ensures
        r == listed_size(listing@, name@),
{
    let mut i: usize = 0;
    assert(listing@.skip(0) =~= listing@);
    while i < listing.len()
        invariant
            i <= listing@.len(),
            listed_size(listing@, name@) == listed_size(listing@.skip(i as int), name@),
        decreases listing@.len() - i,
    {
        assert(listing@.skip(i as int)[0] == listing@[i as int]);
        if str_eq(listing[i].name.as_str(), name) {
            return listing[i].size;
        }
        assert(listing@.skip(i as int).drop_first() =~= listing@.skip(i + 1));
        i += 1;
    }
    None
}

fn remote_names_of(listing: &Vec<RemoteFile>) -> (r: Vec<String>)
    ensures
        string_views(r@) == remote_names(listing@),
{
    let mut out: Vec<String> = Vec::new();
    let mut i: usize = 0;
    while i < listing.len()
        invariant
            i <= listing@.len(),
            string_views(out@) == remote_names(listing@.take(i as int)),
        decreases listing@.len() - i,
    {
        let ghost before = out@;
        out.push(listing[i].name.clone());
        assert(string_views(out@) =~= string_views(before).push(listing@[i as int].name@));
        assert(remote_names(listing@.take(i + 1)) =~= remote_names(listing@.take(i as int)).push(
            listing@[i as int].name@,
        ));
        i += 1;
    }
    assert(listing@.take(i as int) =~= listing@);
    out
}

impl<D: Downloader> Hub<D> {
    /// The local file a ref names, if it is already here. Never touches the
    /// network. `disk` holds the regular files under the models directory
    /// and, for a path ref, the file it names when there is one; `home` is
    /// the home directory, for `~`.
    pub fn find(&self, r: &ModelRef, disk: &[DiskFile], home: Option<&str>) -> (res: Result<
        Option<LocalModel>,
    >)
        ensures
            find_outcome(res, r@, self.dir(), disk@, opt_text(home)),
    {
        let src = match parse_ref(r) {
            Ok(s) => s,
            Err(e) => return Err(e),
        };
        match src {
            Source::Path(p) => {
                let e = expand_home(p.as_str(), home);
                self.model_at(disk, e.as_str())
            },
            Source::Local(name) => self.find_local(name.as_str(), disk),
            Source::Hf { repo, select, .. } => {
                let flat = local_dir_name(repo.as_str());
                let dir = join_path(self.models_dir.as_str(), flat.as_str());
                let files = children_of(disk, dir.as_str());
                match choose_gguf(files.as_slice(), &select) {
                    Ok(f) => {
                        let p = join_path(dir.as_str(), f.as_str());
                        self.model_at(disk, p.as_str())
                    },
                    Err(_) => Ok(None),
                }
            },
            Source::Runtime { runtime, model } => {
                let mut m = r.as_str().to_owned();
                m.append(" is served by ");
                m.append(runtime.as_str());
                m.append(", not a file; ask the runtime for ");
                let q = debug_str(model.as_str());
                m.append(q.as_str());
                Err(Error::Invalid(m))
            },
        }
    }

    /// The file a ref names when it is here (`Some`), or that a pull is
    /// needed (`None`, for a hub ref only); a path or a name that finds
    /// nothing is not found.
    pub fn resolve(&self, r: &ModelRef, disk: &[DiskFile], home: Option<&str>) -> (res: Result<
        Option<LocalModel>,
    >)
        ensures
            resolve_outcome(res, r@, self.dir(), disk@, opt_text(home)),
    {
        let found = self.find(r, disk, home);
        match found {
            Ok(Some(m)) => return Ok(Some(m)),
            Err(e) => return Err(e),
            Ok(None) => {},
        }
        let src = match parse_ref(r) {
            Ok(s) => s,
            Err(e) => return Err(e),
        };
        match src {
            Source::Hf { .. } => Ok(None),
            Source::Path(p) => {
                let e = expand_home(p.as_str(), home);
                let mut m = "model file ".to_owned();
                m.append(e.as_str());
                Err(Error::NotFound(m))
            },
            Source::Local(name) => {
                let mut m = debug_str(name.as_str());
                m.append(" in ");
                m.append(self.models_dir.as_str());
                m.append("; see `infy models`, or pull one with `infy pull hf:owner/repo`");
                Err(Error::NotFound(m))
            },
            Source::Runtime { .. } => {
                let mut m = r.as_str().to_owned();
                m.append(" is a runtime model, not a file");
                Err(Error::Invalid(m))
            },
        }
    }

    /// What a pull of `r` comes to. A runtime's model is refused; a local
    /// ref is found or not found, never downloaded; a hub ref's repository
    /// is listed through the downloader, one GGUF chosen, and the download
    /// skipped when the file is already here with the size the repository
    /// gives it.
    pub fn pull(&self, r: &ModelRef, disk: &[DiskFile], home: Option<&str>) -> (res: Result<PullStep>)
        ensures
            match ref_meaning(r@) {
                Err(m) => res matches Err(Error::Invalid(x)) && x@ == m,
                Ok(SourceView::Runtime { runtime, .. }) => res matches Err(Error::Invalid(x)) && x@
                    == r@ + " is a "@ + runtime
                    + " model; pull it with that runtime (`infy runtime` knows how)"@,
                Ok(SourceView::Path(_)) | Ok(SourceView::Local(_)) => if find_outcome(
                    Ok(None),
                    r@,
                    self.dir(),
                    disk@,
                    opt_text(home),
                ) {
                    res matches Err(Error::NotFound(x)) && x@ == r@
                        + ": no such file; a local ref cannot be downloaded, use hf:owner/repo"@
                } else {
                    (res matches Ok(PullStep::Here(m)) && find_outcome(
                        Ok(Some(m)),
                        r@,
                        self.dir(),
                        disk@,
                        opt_text(home),
                    )) || (res is Err && find_outcome(
                        match res {
                            Err(e) => Err(e),
                            Ok(_) => Ok(None),
                        },
                        r@,
                        self.dir(),
                        disk@,
                        opt_text(home),
                    ))
                },
                Ok(SourceView::Hf { repo, revision, select }) => res is Err || pulled_from_some_listing(
                    self.dir(),
                    repo,
                    revision,
                    select,
                    disk@,
                    res,
                ),
            },
    {
        let src = match parse_ref(r) {
            Ok(s) => s,
            Err(e) => return Err(e),
        };
        match src {
            Source::Runtime { runtime, .. } => {
                let mut m = r.as_str().to_owned();
                m.append(" is a ");
                m.append(runtime.as_str());
                m.append(" model; pull it with that runtime (`infy runtime` knows how)");
                Err(Error::Invalid(m))
            },
            Source::Path(_) | Source::Local(_) => {
                match self.find(r, disk, home) {
                    Ok(Some(m)) => Ok(PullStep::Here(m)),
                    Ok(None) => {
                        let mut m = r.as_str().to_owned();
                        m.append(": no such file; a local ref cannot be downloaded, use hf:owner/repo");
                        Err(Error::NotFound(m))
                    },
                    Err(e) => Err(e),
                }
            },
            Source::Hf { repo, revision, select } => {
                let rev: Option<&str> = match &revision {
                    Some(v) => Some(v.as_str()),
                    None => None,
                };
                let listing = match self.downloader.list_files(repo.as_str(), rev) {
                    Ok(l) => l,
                    Err(e) => return Err(e),
                };
                let ghost sv = select@;
                let ghost rv = opt_view(revision);
                let ghost rp = repo@;
                let res = self.pull_plan(repo, revision, &select, &listing, disk);
                assert(ref_meaning(r@) == Ok::<SourceView, Seq<char>>(
                    SourceView::Hf { repo: rp, revision: rv, select: sv },
                ));
                assert(pull_planned(self.dir(), rp, rv, sv, listing@, disk@, res));
                assert(pulled_from_some_listing(self.dir(), rp, rv, sv, disk@, res));
                res
            },
        }
    }

    /// What a pull of a hub ref does once the repository's listing is
    /// known: one GGUF chosen by `select`, and the download skipped when
    /// that file is already here with the size the listing gives it.
    pub fn pull_plan(
        &self,
        repo: String,
        revision: Option<String>,
        select: &GgufSelector,
        listing: &Vec<RemoteFile>,
        disk: &[DiskFile],
    ) -> (res: Result<PullStep>)
        ensures
            pull_planned(self.dir(), repo@, opt_view(revision), select@, listing@, disk@, res),
    {
        let names = remote_names_of(listing);
        let file = match choose_gguf(names.as_slice(), select) {
            Ok(f) => f,
            Err(e) => return Err(e),
        };
        let expected = listed_size_of(listing, file.as_str());
        let flat = local_dir_name(repo.as_str());
        let dir = join_path(self.models_dir.as_str(), flat.as_str());
        let dest = join_path(dir.as_str(), file.as_str());
        match expected {
            Some(size) => {
                if disk_size_of(disk, dest.as_str()) == Some(size) {
                    let model = self.local_model(dest.as_str(), size);
                    return Ok(PullStep::Present { model, file, size });
                }
            },
            None => {},
        }
        Ok(PullStep::Fetch { repo, revision, file, dir })
    }
}

/// That `res` is what `pull_plan` answers for some listing of the
/// repository: the listing is what the downloader returned.
pub open spec fn pulled_from_some_listing(
    dir: Seq<char>,
    repo: Seq<char>,
    revision: Option<Seq<char>>,
    select: SelectorView,
    disk: Seq<DiskFile>,
    res: Result<PullStep>,
) -> bool {
    exists|listing: Seq<RemoteFile>| #[trigger] pull_planned(dir, repo, revision, select, listing, disk, res)
}

/// A pull of a file that is already here, at the size the repository
/// lists, downloads nothing: it answers with the file as it is.
pub proof fn law_pull_is_idempotent(
    dir: Seq<char>,
    repo: Seq<char>,
    revision: Option<Seq<char>>,
    select: SelectorView,
    listing: Seq<RemoteFile>,
    disk: Seq<DiskFile>,
    res: Result<PullStep>,
    file: Seq<char>,
)
    requires
        pull_planned(dir, repo, revision, select, listing, disk, res),
        gguf_choice(remote_names(listing), select) == Choice::Chosen(file),
        listed_size(listing, file) is Some,
        disk_size(disk, joined_path(repo_dir(dir, repo), file)) == listed_size(listing, file),
    ensures
        res matches Ok(PullStep::Present { model, file: f, size }) && f@ == file && model.path@
            == joined_path(repo_dir(dir, repo), file),
{
}

/// What `pull_plan` answers: the file `select` chooses from the listing,
/// present when the disk holds it at the listed size, fetched otherwise;
/// the choice's error when there is no such file.
pub open spec fn pull_planned(
    dir: Seq<char>,
    repo: Seq<char>,
    revision: Option<Seq<char>>,
    select: SelectorView,
    listing: Seq<RemoteFile>,
    disk: Seq<DiskFile>,
    res: Result<PullStep>,
) -> bool {
    match gguf_choice(remote_names(listing), select) {
        Choice::Chosen(f) => {
            let p = joined_path(repo_dir(dir, repo), f);
            let here = listed_size(listing, f) is Some && disk_size(disk, p) == listed_size(listing, f);
            if here {
                res matches Ok(PullStep::Present { model, file, size }) && model_view(model) == (
                    relative_name(dir, p),
                    p,
                    size,
                ) && file@ == f && Some(size) == listed_size(listing, f)
            } else {
                res matches Ok(PullStep::Fetch { repo: rr, revision: rv, file, dir: d }) && rr@ == repo
                    && opt_view(rv) == revision && file@ == f && d@ == repo_dir(dir, repo)
            }
        },
        Choice::Missing(m) => res matches Err(Error::NotFound(x)) && x@ == m,
        Choice::Refused(m) => res matches Err(Error::Invalid(x)) && x@ == m,
    }
}


} // verus!
