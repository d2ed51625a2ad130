//! What a model ref means, and which file to take from a repository.
use vstd::prelude::*;
use vstd::string::*;

use crate::kernel::error::{Error, Result};
use crate::kernel::model_ref::ModelRef;
use crate::text::{
    chars_contain, chars_of, join_strings, lower_chars, str_contains, string_views, upper_chars, contains_seq, debug_quoted, debug_str, ends_with, find_char, join, lower, push_char,
    split_once, split_once_char, starts_with, str_ends_with, str_eq, str_starts_with, upper,
};

verus! {

/// Which GGUF to take from a repository.
#[derive(Debug, Clone, PartialEq, Eq)]
pub enum GgufSelector {
    /// `Q4_K_M` if there is one, otherwise the next preferred quantisation,
    /// otherwise the only file.
    Default,
    /// A file whose name contains this quantisation tag, e.g. `Q8_0`.
    Quant(String),
    /// An exact path inside the repository.
    File(String),
}

/// What a model ref names.
#[derive(Debug, Clone, PartialEq, Eq)]
pub enum Source {
    /// A Hugging Face repository.
    Hf { repo: String, revision: Option<String>, select: GgufSelector },
    /// A GGUF file on disk.
    Path(String),
    /// A file in the models directory, by name.
    Local(String),
    /// A model served by an external runtime.
    Runtime { runtime: String, model: String },
}

/// A selector as text.
pub enum SelectorView {
    Default,
    Quant(Seq<char>),
    File(Seq<char>),
}

/// A source as text.
pub enum SourceView {
    Hf { repo: Seq<char>, revision: Option<Seq<char>>, select: SelectorView },
    Path(Seq<char>),
    Local(Seq<char>),
    Runtime { runtime: Seq<char>, model: Seq<char> },
}

impl View for GgufSelector {
    type V = SelectorView;

    open spec fn view(&self) -> SelectorView {
        match self {
            GgufSelector::Default => SelectorView::Default,
            GgufSelector::Quant(q) => SelectorView::Quant(q@),
            GgufSelector::File(f) => SelectorView::File(f@),
        }
    }
}

pub open spec fn opt_view(o: Option<String>) -> Option<Seq<char>> {
    match o {
        Some(s) => Some(s@),
        None => None,
    }
}

impl View for Source {
    type V = SourceView;

    open spec fn view(&self) -> SourceView {
        match self {
            Source::Hf { repo, revision, select } => SourceView::Hf {
                repo: repo@,
                revision: opt_view(*revision),
                select: select@,
            },
            Source::Path(p) => SourceView::Path(p@),
            Source::Local(n) => SourceView::Local(n@),
            Source::Runtime { runtime, model } => SourceView::Runtime {
                runtime: runtime@,
                model: model@,
            },
        }
    }
}

/// The runtimes a ref may address: `ollama`, `llamacpp`, `lmstudio`.
pub open spec fn is_runtime_prefix(p: Seq<char>) -> bool {
    p == "ollama"@ || p == "llamacpp"@ || p == "lmstudio"@
}

/// The runtime prefixes a ref may carry.
pub fn runtime_prefixes() -> (r: Vec<&'static str>)
    ensures
        r@.len() == 3,
        forall|i: int| 0 <= i < 3 ==> is_runtime_prefix((#[trigger] r@[i])@),
        forall|p: Seq<char>| is_runtime_prefix(p) ==> exists|i: int| 0 <= i < 3 && (#[trigger] r@[i])@ == p,
{
    let mut r = Vec::new();
    r.push("ollama");
    r.push("llamacpp");
    r.push("lmstudio");
    assert(r@[0]@ == "ollama"@ && r@[1]@ == "llamacpp"@ && r@[2]@ == "lmstudio"@);
    r
}

/// A file on disk: an absolute, relative or home path, or a bare `.gguf`
/// file name.
pub open spec fn path_like(s: Seq<char>) -> bool {
    ||| starts_with(s, "/"@)
    ||| starts_with(s, "./"@)
    ||| starts_with(s, "../"@)
    ||| starts_with(s, "~/"@)
    ||| (find_char(s, '/') is None && ends_with(s, ".gguf"@))
}

/// `owner/repo`, with exactly one slash and no file extension after it.
pub open spec fn repo_shaped(s: Seq<char>) -> bool {
    match split_once(s, '/') {
        Some((owner, repo)) => {
            &&& owner.len() > 0
            &&& repo.len() > 0
            &&& find_char(repo, '/') is None
            &&& !ends_with(repo, ".gguf"@)
            &&& !starts_with(owner, "."@)
        },
        None => false,
    }
}

/// The selector an `hf:` ref's tail names, or the message saying why it
/// names none.
pub open spec fn hf_meaning(rest: Seq<char>) -> core::result::Result<SourceView, Seq<char>> {
    let whole = "hf:"@ + rest;
    match split_once(rest, '/') {
        None => Err(whole + ": expected hf:owner/repo"@),
        Some((owner, tail)) => if owner.len() == 0 || tail.len() == 0 {
            Err(whole + ": expected hf:owner/repo"@)
        } else {
            let file = split_once(tail, '/');
            let repo_part0 = match file {
                Some((r, _)) => r,
                None => tail,
            };
            let quant_split = split_once(repo_part0, ':');
            if file is None && (quant_split matches Some((_, q)) && q.len() == 0) {
                Err(whole + ": empty quantisation after ':'"@)
            } else {
                let repo_part = match (file, quant_split) {
                    (None, Some((r, _))) => r,
                    _ => repo_part0,
                };
                let quant = match (file, quant_split) {
                    (None, Some((_, q))) => Some(q),
                    _ => None,
                };
                match split_once(repo_part, '@') {
                    Some((_, rev)) if rev.len() == 0 => Err(whole + ": empty revision after '@'"@),
                    rev_split => {
                        let repo_name = match rev_split {
                            Some((r, _)) => r,
                            None => repo_part,
                        };
                        let revision = match rev_split {
                            Some((_, v)) => Some(v),
                            None => None,
                        };
                        if repo_name.len() == 0 {
                            Err(whole + ": empty repository name"@)
                        } else {
                            match file {
                                Some((_, f)) => if !ends_with(f, ".gguf"@) {
                                    Err(whole + ": "@ + debug_quoted(f) + " is not a .gguf file"@)
                                } else {
                                    Ok(
                                        SourceView::Hf {
                                            repo: owner + "/"@ + repo_name,
                                            revision,
                                            select: SelectorView::File(f),
                                        },
                                    )
                                },
                                None => Ok(
                                    SourceView::Hf {
                                        repo: owner + "/"@ + repo_name,
                                        revision,
                                        select: match quant {
                                            Some(q) => SelectorView::Quant(q),
                                            None => SelectorView::Default,
                                        },
                                    },
                                ),
                            }
                        }
                    },
                }
            }
        },
    }
}

proof fn lemma_find_none_concat(a: Seq<char>, b: Seq<char>, c: char)
    requires
        find_char(a, c) is None,
        find_char(b, c) is None,
    ensures
        find_char(a + b, c) is None,
    decreases a.len(),
{
    if a.len() == 0 {
        assert(a + b =~= b);
    } else {
        assert((a + b).drop_first() =~= a.drop_first() + b);
        lemma_find_none_concat(a.drop_first(), b, c);
    }
}

/// Splitting `a`, a `c`, then `b` at its first `c` gives back `a` and `b`
/// when `a` holds no `c`.
proof fn lemma_split_after(a: Seq<char>, b: Seq<char>, c: char)
    requires
        find_char(a, c) is None,
    ensures
        split_once(a + seq![c] + b, c) == Some((a, b)),
    decreases a.len(),
{
    lemma_find_at(a, b, c);
    let s = a + seq![c] + b;
    assert(s.take(a.len() as int) =~= a);
    assert(s.skip(a.len() as int + 1) =~= b);
}

proof fn lemma_find_at(a: Seq<char>, b: Seq<char>, c: char)
    requires
        find_char(a, c) is None,
    ensures
        find_char(a + seq![c] + b, c) == Some(a.len()),
    decreases a.len(),
{
    let s = a + seq![c] + b;
    if a.len() == 0 {
        assert(s[0] == c);
    } else {
        assert(s.drop_first() =~= a.drop_first() + seq![c] + b);
        lemma_find_at(a.drop_first(), b, c);
    }
}

/// An `hf:` ref keeps the revision it names, whichever file it selects:
/// `hf:owner/name@rev`, `hf:owner/name@rev:QUANT` and
/// `hf:owner/name@rev/file.gguf` are all of repository `owner/name` at
/// revision `rev`, selecting the default, that quantisation, or that file.
pub proof fn law_an_hf_revision_holds_for_every_selector(
    owner: Seq<char>,
    name: Seq<char>,
    rev: Seq<char>,
    quant: Option<Seq<char>>,
    file: Option<Seq<char>>,
)
    requires
        owner.len() > 0 && find_char(owner, '/') is None && find_char(owner, ':') is None,
        name.len() > 0 && find_char(name, '/') is None && find_char(name, ':') is None && find_char(name, '@')
            is None,
        rev.len() > 0 && find_char(rev, '/') is None && find_char(rev, ':') is None && find_char(rev, '@') is None,
        !(quant is Some && file is Some),
        quant matches Some(q) ==> q.len() > 0 && find_char(q, '/') is None,
        file matches Some(f) ==> ends_with(f, ".gguf"@),
    ensures
        ref_meaning(
            "hf:"@ + owner + "/"@ + name + "@"@ + rev + match (quant, file) {
                (Some(q), _) => seq![':'] + q,
                (_, Some(f)) => seq!['/'] + f,
                _ => Seq::empty(),
            },
        ) == Ok::<SourceView, Seq<char>>(
            SourceView::Hf {
                repo: owner + "/"@ + name,
                revision: Some(rev),
                select: match (quant, file) {
                    (Some(q), _) => SelectorView::Quant(q),
                    (_, Some(f)) => SelectorView::File(f),
                    _ => SelectorView::Default,
                },
            },
        ),
{
    reveal_strlit("hf:");
    reveal_strlit("hf");
    reveal_strlit("/");
    reveal_strlit("@");
    reveal_strlit("ollama");
    reveal_strlit("llamacpp");
    reveal_strlit("lmstudio");
    let extra = match (quant, file) {
        (Some(q), _) => seq![':'] + q,
        (_, Some(f)) => seq!['/'] + f,
        _ => Seq::<char>::empty(),
    };
    let hf = seq!['h', 'f'];
    assert("hf:"@ =~= hf + seq![':']);
    assert("hf"@ =~= hf);
    assert("/"@ =~= seq!['/']);
    assert("@"@ =~= seq!['@']);
    let name_rev = name + seq!['@'] + rev;
    let tail = name_rev + extra;
    let rest = owner + seq!['/'] + tail;
    let s = "hf:"@ + owner + "/"@ + name + "@"@ + rev + extra;
    assert(s =~= hf + seq![':'] + rest);
    assert(find_char(hf, ':') is None) by {
        reveal_with_fuel(find_char, 3);
        assert(hf.drop_first() =~= seq!['f']);
        assert(hf.drop_first().drop_first() =~= Seq::<char>::empty());
    }
    lemma_split_after(hf, rest, ':');
    assert(hf.len() == 2 && "ollama"@.len() == 6 && "llamacpp"@.len() == 8 && "lmstudio"@.len() == 8);
    assert(!is_runtime_prefix(hf));
    lemma_split_after(owner, tail, '/');
    assert(find_char(seq!['@'], '/') is None && find_char(seq!['@'], ':') is None) by {
        reveal_with_fuel(find_char, 2);
        assert(seq!['@'].drop_first() =~= Seq::<char>::empty());
    }
    lemma_find_none_concat(name, seq!['@'], '/');
    lemma_find_none_concat(name + seq!['@'], rev, '/');
    lemma_find_none_concat(name, seq!['@'], ':');
    lemma_find_none_concat(name + seq!['@'], rev, ':');
    lemma_split_after(name, rev, '@');
    assert(tail.len() > 0);
    match (quant, file) {
        (Some(q), _) => {
            assert(tail =~= name_rev + seq![':'] + q);
            assert(find_char(seq![':'], '/') is None) by {
                reveal_with_fuel(find_char, 2);
                assert(seq![':'].drop_first() =~= Seq::<char>::empty());
            }
            lemma_find_none_concat(name_rev, seq![':'], '/');
            lemma_find_none_concat(name_rev + seq![':'], q, '/');
            lemma_split_after(name_rev, q, ':');
        },
        (_, Some(f)) => {
            assert(tail =~= name_rev + seq!['/'] + f);
            lemma_split_after(name_rev, f, '/');
        },
        _ => {
            assert(tail =~= name_rev);
        },
    }
}

/// What a ref means, or the message saying why it is not one.
///
/// | form | meaning |
/// |---|---|
/// | `hf:owner/repo` | the default GGUF of that repository |
/// | `hf:owner/repo:Q8_0` | the GGUF whose name contains `Q8_0` |
/// | `hf:owner/repo/sub/file.gguf` | that exact file |
/// | `hf:owner/repo@rev...` | any of the above at a revision |
/// | `owner/repo` | same as `hf:owner/repo` |
/// | `./x.gguf`, `/x.gguf`, `~/x.gguf`, `x.gguf` | a file on disk |
/// | `ollama:name`, `llamacpp:name`, `lmstudio:name` | a runtime's model |
/// | anything else | a name in the models directory |
pub open spec fn ref_meaning(s: Seq<char>) -> core::result::Result<SourceView, Seq<char>> {
    match split_once(s, ':') {
        Some((prefix, rest)) if is_runtime_prefix(prefix) => if rest.len() == 0 {
            Err(debug_quoted(s) + ": no model name after "@ + prefix + ":"@)
        } else {
            Ok(SourceView::Runtime { runtime: prefix, model: rest })
        },
        Some((prefix, rest)) if prefix == "hf"@ => hf_meaning(rest),
        _ => if path_like(s) {
            Ok(SourceView::Path(s))
        } else if repo_shaped(s) {
            hf_meaning(s)
        } else {
            Ok(SourceView::Local(s))
        },
    }
}

/// Whether a parse outcome is the one `ref_meaning` describes.
pub open spec fn parsed_as(meaning: core::result::Result<SourceView, Seq<char>>, r: Result<Source>) -> bool {
    match meaning {
        Ok(v) => r matches Ok(src) && src@ == v,
        Err(m) => r matches Err(Error::Invalid(msg)) && msg@ == m,
    }
}

fn looks_like_repo(s: &str) -> (b: bool)
    ensures
        b == repo_shaped(s@),
{
    match split_once_char(s, '/') {
        Some((owner, repo)) => {
            let no_slash = split_once_char(repo.as_str(), '/').is_none();
            proof {
                reveal_strlit(".gguf");
                reveal_strlit(".");
            }
            !owner.as_str().is_empty() && !repo.as_str().is_empty() && no_slash && !str_ends_with(repo.as_str(), ".gguf")
                && !str_starts_with(owner.as_str(), ".")
        },
        None => false,
    }
}

/// Parse a ref: a runtime's model, a Hugging Face repository (with an
/// optional revision, quantisation or file), a file on disk, or a name in
/// the models directory.
pub fn parse_ref(r: &ModelRef) -> (res: Result<Source>)
    ensures
        parsed_as(ref_meaning(r@), res),
{
    let s = r.as_str();
    match split_once_char(s, ':') {
        Some((prefix, rest)) => {
            let p = prefix.as_str();
            if str_eq(p, "ollama") || str_eq(p, "llamacpp") || str_eq(p, "lmstudio") {
                if rest.as_str().is_empty() {
                    let mut m = debug_str(s);
                    m.append(": no model name after ");
                    m.append(p);
                    m.append(":");
                    return Err(Error::Invalid(m));
                }
                return Ok(Source::Runtime { runtime: prefix, model: rest });
            }
            if str_eq(p, "hf") {
                return parse_hf(rest.as_str());
            }
        },
        None => {},
    }
    if path_shaped(s) {
        return Ok(Source::Path(s.to_owned()));
    }
    if looks_like_repo(s) {
        return parse_hf(s);
    }
    Ok(Source::Local(s.to_owned()))
}

fn path_shaped(s: &str) -> (b: bool)
    ensures
        b == path_like(s@),
{
    str_starts_with(s, "/") || str_starts_with(s, "./") || str_starts_with(s, "../")
        || str_starts_with(s, "~/") || (split_once_char(s, '/').is_none() && str_ends_with(s, ".gguf"))
}

fn hf_error(rest: &str, what: &str) -> (e: Error)
    ensures
        e matches Error::Invalid(m) && m@ == "hf:"@ + rest@ + what@,
{
    let mut m = "hf:".to_owned();
    m.append(rest);
    m.append(what);
    Error::Invalid(m)
}

fn parse_hf(rest: &str) -> (res: Result<Source>)
    ensures
        parsed_as(hf_meaning(rest@), res),
{
    let (owner, tail) = match split_once_char(rest, '/') {
        Some((o, t)) => {
            if o.as_str().is_empty() || t.as_str().is_empty() {
                return Err(hf_error(rest, ": expected hf:owner/repo"));
            }
            (o, t)
        },
        None => {
            return Err(hf_error(rest, ": expected hf:owner/repo"));
        },
    };
    let file = split_once_char(tail.as_str(), '/');
    let repo_part0 = match &file {
        Some((r, _)) => r.clone(),
        None => tail.clone(),
    };
    let quant_split = split_once_char(repo_part0.as_str(), ':');
    let (repo_part, quant) = match (&file, quant_split) {
        (None, Some((r, q))) => {
            if q.as_str().is_empty() {
                return Err(hf_error(rest, ": empty quantisation after ':'"));
            }
            (r, Some(q))
        },
        _ => (repo_part0, None),
    };
    let (repo_name, revision) = match split_once_char(repo_part.as_str(), '@') {
        Some((r, v)) => {
            if v.as_str().is_empty() {
                return Err(hf_error(rest, ": empty revision after '@'"));
            }
            (r, Some(v))
        },
        None => (repo_part.clone(), None),
    };
    if repo_name.as_str().is_empty() {
        return Err(hf_error(rest, ": empty repository name"));
    }
    let mut repo = owner.clone();
    repo.append("/");
    repo.append(repo_name.as_str());
    let select = match file {
        Some((_, f)) => {
            if !str_ends_with(f.as_str(), ".gguf") {
                let mut m = "hf:".to_owned();
                m.append(rest);
                m.append(": ");
                let q = debug_str(f.as_str());
                m.append(q.as_str());
                m.append(" is not a .gguf file");
                return Err(Error::Invalid(m));
            }
            GgufSelector::File(f)
        },
        None => match quant {
            Some(q) => GgufSelector::Quant(q),
            None => GgufSelector::Default,
        },
    };
    Ok(Source::Hf { repo, revision, select })
}


/// `s` with every `/` replaced by `--`.
pub open spec fn flattened(s: Seq<char>) -> Seq<char>
    decreases s.len(),
{
    if s.len() == 0 {
        Seq::empty()
    } else if s.last() == '/' {
        flattened(s.drop_last()) + seq!['-', '-']
    } else {
        flattened(s.drop_last()).push(s.last())
    }
}

/// A repository's directory name holds no `/`: every repository is one
/// directory directly under the models directory.
pub proof fn law_local_dir_names_are_flat(repo: Seq<char>)
    ensures
        !flattened(repo).contains('/'),
    decreases repo.len(),
{
    if repo.len() > 0 {
        law_local_dir_names_are_flat(repo.drop_last());
        let f = flattened(repo.drop_last());
        assert forall|i: int| 0 <= i < flattened(repo).len() implies flattened(repo)[i] != '/' by {
            if i < f.len() {
                assert(flattened(repo)[i] == f[i]);
            }
        }
    }
}

/// The directory name a repository is stored under: `owner/name` becomes
/// `owner--name`, so that the models directory stays flat.
pub fn local_dir_name(repo: &str) -> (r: String)
    ensures
        r@ == flattened(repo@),
{
    let cs = chars_of(repo);
    let mut out = String::new();
    let mut i: usize = 0;
    while i < cs.len()
        invariant
            cs@ == repo@,
            i <= cs@.len(),
            out@ == flattened(repo@.take(i as int)),
        decreases cs@.len() - i,
    {
        let c = cs[i];
        assert(repo@.take(i + 1).drop_last() =~= repo@.take(i as int));
        if c == '/' {
            push_char(&mut out, '-');
            push_char(&mut out, '-');
        } else {
            push_char(&mut out, c);
        }
        assert(out@ =~= flattened(repo@.take(i + 1)));
        i += 1;
    }
    assert(repo@.take(i as int) =~= repo@);
    out
}

/// A split GGUF (`-00001-of-00003.gguf`).
pub open spec fn is_shard(name: Seq<char>) -> bool {
    contains_seq(name, "-of-"@) && ends_with(name, ".gguf"@)
}

/// A multimodal projector (`mmproj-*`), in any letter case.
pub open spec fn is_projector(name: Seq<char>) -> bool {
    contains_seq(lower(name), "mmproj"@)
}

/// The tests that narrow a repository's file list.
pub enum Pick {
    /// Ends in `.gguf`.
    Gguf,
    /// Neither a shard nor a projector.
    Loadable,
    /// Its upper-cased name contains the tag.
    Tag(Seq<char>),
    /// Its upper-cased name holds the tag between `-`, `_` or `.` and `.`.
    ExactTag(Seq<char>),
    /// Its upper-cased name holds the quantisation followed by `.` or `-`.
    Preferred(Seq<char>),
}

pub open spec fn picks(p: Pick, f: Seq<char>) -> bool {
    match p {
        Pick::Gguf => ends_with(f, ".gguf"@),
        Pick::Loadable => !is_shard(f) && !is_projector(f),
        Pick::Tag(t) => contains_seq(upper(f), t),
        Pick::ExactTag(t) => {
            ||| contains_seq(upper(f), seq!['-'] + t + seq!['.'])
            ||| contains_seq(upper(f), seq!['_'] + t + seq!['.'])
            ||| contains_seq(upper(f), seq!['.'] + t + seq!['.'])
        },
        Pick::Preferred(q) => contains_seq(upper(f), q.push('.')) || contains_seq(upper(f), q.push('-')),
    }
}

/// The names that pass `p`, in their order.
pub open spec fn kept(fs: Seq<Seq<char>>, p: Pick) -> Seq<Seq<char>>
    decreases fs.len(),
{
    if fs.len() == 0 {
        Seq::empty()
    } else if picks(p, fs.last()) {
        kept(fs.drop_last(), p).push(fs.last())
    } else {
        kept(fs.drop_last(), p)
    }
}

pub proof fn lemma_kept_len(fs: Seq<Seq<char>>, p: Pick)
    ensures
        kept(fs, p).len() <= fs.len(),
    decreases fs.len(),
{
    if fs.len() > 0 {
        lemma_kept_len(fs.drop_last(), p);
    }
}

/// The quantisations taken when a ref names none, best quality per byte
/// first.
pub open spec fn preferred_quants() -> Seq<Seq<char>> {
    seq![
        "Q4_K_M"@, "Q4_K_S"@, "Q5_K_M"@, "Q5_K_S"@, "Q6_K"@, "Q8_0"@, "Q4_0"@, "F16"@, "BF16"@,
        "F32"@,
    ]
}

fn preferred_quant_names() -> (r: Vec<&'static str>)
    ensures
        r@.len() == preferred_quants().len(),
        forall|i: int| 0 <= i < r@.len() ==> (#[trigger] r@[i])@ == preferred_quants()[i],
{
    let r = vec!["Q4_K_M", "Q4_K_S", "Q5_K_M", "Q5_K_S", "Q6_K", "Q8_0", "Q4_0", "F16", "BF16", "F32"];
    assert(r@[0]@ == preferred_quants()[0] && r@[1]@ == preferred_quants()[1] && r@[2]@
        == preferred_quants()[2] && r@[3]@ == preferred_quants()[3] && r@[4]@
        == preferred_quants()[4] && r@[5]@ == preferred_quants()[5] && r@[6]@
        == preferred_quants()[6] && r@[7]@ == preferred_quants()[7] && r@[8]@
        == preferred_quants()[8] && r@[9]@ == preferred_quants()[9]);
    r
}

/// The first quantisation of `qs` that exactly one candidate carries, and
/// that candidate.
pub open spec fn preferred_pick(cands: Seq<Seq<char>>, qs: Seq<Seq<char>>) -> Option<Seq<char>>
    decreases qs.len(),
{
    if qs.len() == 0 {
        None
    } else {
        let hits = kept(cands, Pick::Preferred(qs[0]));
        if hits.len() == 1 {
            Some(hits[0])
        } else {
            preferred_pick(cands, qs.drop_first())
        }
    }
}

/// What the GGUF files of a repository are, for an error message.
pub open spec fn listing(ggufs: Seq<Seq<char>>) -> Seq<char> {
    if ggufs.len() == 0 {
        "the repository has no .gguf files"@
    } else {
        "available: "@ + join(ggufs, ", "@)
    }
}

/// The outcome of choosing a GGUF: a file, a `NotFound` message or an
/// `Invalid` message.
pub enum Choice {
    Chosen(Seq<char>),
    Missing(Seq<char>),
    Refused(Seq<char>),
}

/// Which file `sel` takes from a repository holding `files`.
pub open spec fn gguf_choice(files: Seq<Seq<char>>, sel: SelectorView) -> Choice {
    let ggufs = kept(files, Pick::Gguf);
    let cands = kept(ggufs, Pick::Loadable);
    match sel {
        SelectorView::File(f) => if files.contains(f) {
            Choice::Chosen(f)
        } else {
            Choice::Missing(f + " in the repository; "@ + listing(ggufs))
        },
        SelectorView::Quant(q) => {
            let hits = kept(cands, Pick::Tag(upper(q)));
            if hits.len() == 1 {
                Choice::Chosen(hits[0])
            } else if hits.len() == 0 {
                Choice::Missing("no GGUF matching "@ + debug_quoted(q) + "; "@ + listing(ggufs))
            } else {
                let exact = kept(hits, Pick::ExactTag(upper(q)));
                if exact.len() == 1 {
                    Choice::Chosen(exact[0])
                } else {
                    Choice::Refused(
                        debug_quoted(q) + " matches several files: "@ + join(hits, ", "@)
                            + "; name the file with hf:owner/repo/<file>.gguf"@,
                    )
                }
            }
        },
        SelectorView::Default => match preferred_pick(cands, preferred_quants()) {
            Some(f) => Choice::Chosen(f),
            None => if cands.len() == 1 {
                Choice::Chosen(cands[0])
            } else if cands.len() == 0 && ggufs.len() > 0 {
                Choice::Refused(
                    "only sharded or projector GGUFs found, which infy cannot load yet; "@
                        + listing(ggufs),
                )
            } else if cands.len() == 0 {
                Choice::Missing("a GGUF to download; "@ + listing(ggufs))
            } else {
                Choice::Refused(
                    "several GGUFs and none of the usual quantisations; choose with hf:owner/repo:<QUANT>. Available: "@
                        + join(cands, ", "@),
                )
            },
        },
    }
}

proof fn lemma_preferred_pick_at(cands: Seq<Seq<char>>, qs: Seq<Seq<char>>, k: int)
    requires
        0 <= k < qs.len(),
        kept(cands, Pick::Preferred(qs[k])).len() == 1,
        forall|j: int| 0 <= j < k ==> kept(cands, Pick::Preferred(#[trigger] qs[j])).len() != 1,
    ensures
        preferred_pick(cands, qs) == Some(kept(cands, Pick::Preferred(qs[k]))[0]),
    decreases k,
{
    if k > 0 {
        assert forall|j: int| 0 <= j < k - 1 implies kept(cands, Pick::Preferred(#[trigger] qs.drop_first()[j])).len()
            != 1 by {
            assert(qs.drop_first()[j] == qs[j + 1]);
        }
        assert(qs.drop_first()[k - 1] == qs[k]);
        assert(kept(cands, Pick::Preferred(qs[0])).len() != 1);
        lemma_preferred_pick_at(cands, qs.drop_first(), k - 1);
    }
}

/// With the default selector the quantisations are tried best quality per
/// byte first: Q4_K_M, Q4_K_S, Q5_K_M, Q5_K_S, Q6_K, Q8_0, Q4_0, F16, BF16,
/// F32. The first of them that exactly one loadable GGUF carries decides,
/// so a Q8_0 is taken over an F16 or a full-precision file whenever no
/// earlier quantisation is there.
pub proof fn law_the_default_takes_the_best_quality_per_byte_first(files: Seq<Seq<char>>, k: int)
    requires
        0 <= k < 10,
        ({
            let order = seq![
                "Q4_K_M"@, "Q4_K_S"@, "Q5_K_M"@, "Q5_K_S"@, "Q6_K"@, "Q8_0"@, "Q4_0"@, "F16"@, "BF16"@, "F32"@,
            ];
            let cands = kept(kept(files, Pick::Gguf), Pick::Loadable);
            &&& kept(cands, Pick::Preferred(order[k])).len() == 1
            &&& forall|j: int| 0 <= j < k ==> kept(cands, Pick::Preferred(#[trigger] order[j])).len() != 1
        }),
    ensures
        ({
            let order = seq![
                "Q4_K_M"@, "Q4_K_S"@, "Q5_K_M"@, "Q5_K_S"@, "Q6_K"@, "Q8_0"@, "Q4_0"@, "F16"@, "BF16"@, "F32"@,
            ];
            let cands = kept(kept(files, Pick::Gguf), Pick::Loadable);
            gguf_choice(files, SelectorView::Default) == Choice::Chosen(kept(cands, Pick::Preferred(order[k]))[0])
        }),
{
    let order = seq![
        "Q4_K_M"@, "Q4_K_S"@, "Q5_K_M"@, "Q5_K_S"@, "Q6_K"@, "Q8_0"@, "Q4_0"@, "F16"@, "BF16"@, "F32"@,
    ];
    let cands = kept(kept(files, Pick::Gguf), Pick::Loadable);
    assert(preferred_quants() =~= order);
    lemma_preferred_pick_at(cands, order, k);
}

/// Whether `r` is the outcome `c` describes.
pub open spec fn chosen_as(c: Choice, r: Result<String>) -> bool {
    match c {
        Choice::Chosen(f) => r matches Ok(s) && s@ == f,
        Choice::Missing(m) => r matches Err(Error::NotFound(msg)) && msg@ == m,
        Choice::Refused(m) => r matches Err(Error::Invalid(msg)) && msg@ == m,
    }
}


/// A `Pick` in executable form: tags are held upper-cased, as characters.
enum Sieve {
    Gguf,
    Loadable,
    Tag(Vec<char>),
    ExactTag(Vec<char>),
    Preferred(Vec<char>),
}

spec fn sieve_pick(s: &Sieve) -> Pick {
    match s {
        Sieve::Gguf => Pick::Gguf,
        Sieve::Loadable => Pick::Loadable,
        Sieve::Tag(t) => Pick::Tag(t@),
        Sieve::ExactTag(t) => Pick::ExactTag(t@),
        Sieve::Preferred(q) => Pick::Preferred(q@),
    }
}

/// `[a] + t + [b]` as characters.
fn framed(a: char, t: &Vec<char>, b: char) -> (r: Vec<char>)
    ensures
        r@ == seq![a] + t@ + seq![b],
{
    let mut r: Vec<char> = Vec::new();
    r.push(a);
    let mut i: usize = 0;
    while i < t.len()
        invariant
            i <= t@.len(),
            r@ == seq![a] + t@.take(i as int),
        decreases t@.len() - i,
    {
        r.push(t[i]);
        assert(t@.take(i + 1) =~= t@.take(i as int).push(t@[i as int]));
        i += 1;
    }
    assert(t@.take(i as int) =~= t@);
    r.push(b);
    r
}

/// `t` followed by `b`.
fn followed(t: &Vec<char>, b: char) -> (r: Vec<char>)
    ensures
        r@ == t@.push(b),
{
    let mut r = t.clone();
    r.push(b);
    r
}

fn passes(s: &Sieve, f: &str) -> (b: bool)
    ensures
        b == picks(sieve_pick(s), f@),
{
    match s {
        Sieve::Gguf => {
            proof {
                reveal_strlit(".gguf");
            }
            str_ends_with(f, ".gguf")
        },
        Sieve::Loadable => {
            proof {
                reveal_strlit(".gguf");
                reveal_strlit("-of-");
                reveal_strlit("mmproj");
            }
            let shard = str_contains(f, "-of-") && str_ends_with(f, ".gguf");
            let low = lower_chars(f);
            let projector = chars_contain(&low, &chars_of("mmproj"));
            !shard && !projector
        },
        Sieve::Tag(t) => chars_contain(&upper_chars(f), t),
        Sieve::ExactTag(t) => {
            let u = upper_chars(f);
            chars_contain(&u, &framed('-', t, '.')) || chars_contain(&u, &framed('_', t, '.'))
                || chars_contain(&u, &framed('.', t, '.'))
        },
        Sieve::Preferred(q) => {
            let u = upper_chars(f);
            chars_contain(&u, &followed(q, '.')) || chars_contain(&u, &followed(q, '-'))
        },
    }
}

/// The names of `fs` that pass `s`, in their order.
fn sift(fs: &[String], s: &Sieve) -> (out: Vec<String>)
    ensures
        string_views(out@) == kept(string_views(fs@), sieve_pick(s)),
{
    let mut out: Vec<String> = Vec::new();
    let mut i: usize = 0;
    while i < fs.len()
        invariant
            i <= fs@.len(),
            string_views(out@) == kept(string_views(fs@.take(i as int)), sieve_pick(s)),
        decreases fs@.len() - i,
    {
        let f = &fs[i];
        let ghost before = out@;
        assert(string_views(fs@.take(i + 1)).drop_last() =~= string_views(fs@.take(i as int)));
        assert(string_views(fs@.take(i + 1)).last() == fs@[i as int]@);
        if passes(s, f.as_str()) {
            out.push(f.clone());
            assert(string_views(out@) =~= string_views(before).push(f@));
        }
        i += 1;
    }
    assert(fs@.take(i as int) =~= fs@);
    out
}

/// Whether `fs` holds the name `f`.
pub(crate) fn holds_name(fs: &[String], f: &str) -> (b: bool)
    ensures
        b == string_views(fs@).contains(f@),
{
    let mut i: usize = 0;
    while i < fs.len()
        invariant
            i <= fs@.len(),
            forall|j: int| 0 <= j < i ==> fs@[j]@ != f@,
        decreases fs@.len() - i,
    {
        if str_eq(fs[i].as_str(), f) {
            assert(string_views(fs@)[i as int] == f@);
            return true;
        }
        i += 1;
    }
    assert forall|j: int| 0 <= j < string_views(fs@).len() implies string_views(fs@)[j] != f@ by {
        assert(string_views(fs@)[j] == fs@[j]@);
    }
    false
}

fn listing_text(ggufs: &Vec<String>) -> (r: String)
    ensures
        r@ == listing(string_views(ggufs@)),
{
    if ggufs.len() == 0 {
        "the repository has no .gguf files".to_owned()
    } else {
        let mut m = "available: ".to_owned();
        let j = join_strings(ggufs, ", ");
        m.append(j.as_str());
        m
    }
}

/// Pick one GGUF from a repository's file list.
///
/// Shards (`-00001-of-00003.gguf`) and multimodal projectors (`mmproj-*`)
/// are never candidates. Every error lists what is available, because the
/// fix is always "say which one".
pub fn choose_gguf(files: &[String], select: &GgufSelector) -> (res: Result<String>)
    ensures
        chosen_as(gguf_choice(string_views(files@), select@), res),
{
    let ggufs = sift(files, &Sieve::Gguf);
    let cands = sift(ggufs.as_slice(), &Sieve::Loadable);
    match select {
        GgufSelector::File(f) => {
            if holds_name(files, f.as_str()) {
                Ok(f.clone())
            } else {
                let mut m = f.clone();
                m.append(" in the repository; ");
                let l = listing_text(&ggufs);
                m.append(l.as_str());
                Err(Error::NotFound(m))
            }
        },
        GgufSelector::Quant(q) => {
            let qu = upper_chars(q.as_str());
            let hits = sift(cands.as_slice(), &Sieve::Tag(qu.clone()));
            if hits.len() == 1 {
                Ok(hits[0].clone())
            } else if hits.len() == 0 {
                let mut m = "no GGUF matching ".to_owned();
                let dq = debug_str(q.as_str());
                m.append(dq.as_str());
                m.append("; ");
                let l = listing_text(&ggufs);
                m.append(l.as_str());
                Err(Error::NotFound(m))
            } else {
                let exact = sift(hits.as_slice(), &Sieve::ExactTag(qu));
                if exact.len() == 1 {
                    Ok(exact[0].clone())
                } else {
                    let mut m = debug_str(q.as_str());
                    m.append(" matches several files: ");
                    let j = join_strings(&hits, ", ");
                    m.append(j.as_str());
                    m.append("; name the file with hf:owner/repo/<file>.gguf");
                    Err(Error::Invalid(m))
                }
            }
        },
        GgufSelector::Default => {
            let quants = preferred_quant_names();
            let mut i: usize = 0;
            assert(preferred_quants().skip(0) =~= preferred_quants());
            while i < quants.len()
                invariant
                    i <= quants@.len(),
                    select@ is Default,
                    string_views(cands@) == kept(kept(string_views(files@), Pick::Gguf), Pick::Loadable),
                    quants@.len() == preferred_quants().len(),
                    forall|k: int| 0 <= k < quants@.len() ==> (#[trigger] quants@[k])@ == preferred_quants()[k],
                    preferred_pick(string_views(cands@), preferred_quants())
                        == preferred_pick(string_views(cands@), preferred_quants().skip(i as int)),
                decreases quants@.len() - i,
            {
                let q = chars_of(quants[i]);
                assert(quants@[i as int]@ == preferred_quants()[i as int]);
                let hits = sift(cands.as_slice(), &Sieve::Preferred(q));
                assert(preferred_quants().skip(i as int)[0] == preferred_quants()[i as int]);
                assert(preferred_quants().skip(i as int).drop_first() =~= preferred_quants().skip(i + 1));
                if hits.len() == 1 {
                    assert(string_views(hits@)[0] == hits@[0]@);
                    assert(preferred_pick(string_views(cands@), preferred_quants().skip(i as int))
                        == Some(hits@[0]@));
                    return Ok(hits[0].clone());
                }
                i += 1;
            }
            assert(preferred_quants().skip(i as int).len() == 0);
            if cands.len() == 1 {
                Ok(cands[0].clone())
            } else if cands.len() == 0 && ggufs.len() > 0 {
                let mut m = "only sharded or projector GGUFs found, which infy cannot load yet; ".to_owned();
                let l = listing_text(&ggufs);
                m.append(l.as_str());
                Err(Error::Invalid(m))
            } else if cands.len() == 0 {
                let mut m = "a GGUF to download; ".to_owned();
                let l = listing_text(&ggufs);
                m.append(l.as_str());
                Err(Error::NotFound(m))
            } else {
                let mut m = "several GGUFs and none of the usual quantisations; choose with hf:owner/repo:<QUANT>. Available: ".to_owned();
                let j = join_strings(&cands, ", ");
                m.append(j.as_str());
                Err(Error::Invalid(m))
            }
        },
    }
}

} // verus!
