//! The Hugging Face hub's answers, read: a repository's file tree, and what
//! a refused request means.
use vstd::prelude::*;
use vstd::string::*;

use crate::hub::service::RemoteFile;
use crate::kernel::error::{Error, Result};
use crate::kernel::model_ref::{trim_text, trimmed};
use crate::runtime::json::{json_read, read_json, Json};
use crate::runtime::logic::{member, member_of};
use crate::text::{decimal, decimal_string, str_eq};

verus! {

/// A file entry of a repository tree: an object whose `type` is `file`,
/// named by its `path`; its size is the LFS object's when it has one, else
/// its own. Anything else in the tree (directories, odd entries) is not a
/// file.
pub open spec fn tree_file(j: Json) -> Option<(Seq<char>, Option<u64>)> {
    match j {
        Json::Object(o) => {
            let is_file = match member(o@, "type"@) {
                Some(Json::Text(t)) => t@ == "file"@,
                _ => false,
            };
            let lfs_size = match member(o@, "lfs"@) {
                Some(Json::Object(l)) => match member(l@, "size"@) {
                    Some(Json::Number(Some(n))) => Some(n),
                    _ => None,
                },
                _ => None,
            };
            let own_size = match member(o@, "size"@) {
                Some(Json::Number(Some(n))) => Some(n),
                _ => None,
            };
            match member(o@, "path"@) {
                Some(Json::Text(p)) => if is_file {
                    Some((p@, if lfs_size is Some { lfs_size } else { own_size }))
                } else {
                    None
                },
                _ => None,
            }
        },
        _ => None,
    }
}

/// The files of a tree, in its order.
pub open spec fn tree_files(items: Seq<Json>) -> Seq<(Seq<char>, Option<u64>)>
    decreases items.len(),
{
    if items.len() == 0 {
        Seq::empty()
    } else {
        tree_files(items.drop_last()) + match tree_file(items.last()) {
            Some(f) => seq![f],
            None => Seq::empty(),
        }
    }
}

pub open spec fn remote_view(f: RemoteFile) -> (Seq<char>, Option<u64>) {
    (f.name@, f.size)
}

pub open spec fn remote_views(fs: Seq<RemoteFile>) -> Seq<(Seq<char>, Option<u64>)> {
    fs.map_values(|f: RemoteFile| remote_view(f))
}

/// The file listing a tree document gives: an array of entries, or, when
/// the document is not one, `None`.
pub open spec fn listing_of(j: Json) -> Option<Seq<(Seq<char>, Option<u64>)>> {
    match j {
        Json::Array(items) => Some(tree_files(items@)),
        _ => None,
    }
}

fn number_of(m: Option<&Json>) -> (r: Option<u64>)
    ensures
        r == match m {
            Some(Json::Number(Some(n))) => Some(*n),
            _ => None::<u64>,
        },
{
    match m {
        Some(Json::Number(Some(n))) => Some(*n),
        _ => None,
    }
}

fn tree_file_of(j: &Json) -> (r: Option<RemoteFile>)
    ensures
        match tree_file(*j) {
            Some(f) => r matches Some(x) && remote_view(x) == f,
            None => r is None,
        },
{
    proof {
        reveal_strlit("file");
    }
    let o = match j {
        Json::Object(o) => o,
        _ => return None,
    };
    let is_file = match member_of(o, "type") {
        Some(Json::Text(t)) => str_eq(t.as_str(), "file"),
        _ => false,
    };
    let lfs_size = match member_of(o, "lfs") {
        Some(Json::Object(l)) => number_of(member_of(l, "size")),
        _ => None,
    };
    let own_size = number_of(member_of(o, "size"));
    match member_of(o, "path") {
        Some(Json::Text(p)) => {
            if is_file {
                let size = if lfs_size.is_some() {
                    lfs_size
                } else {
                    own_size
                };
                Some(RemoteFile { name: p.clone(), size })
            } else {
                None
            }
        },
        _ => None,
    }
}

/// The files a repository tree document lists, or `None` when it is not a
/// tree.
pub fn files_from_json(j: &Json) -> (r: Option<Vec<RemoteFile>>)
    ensures
        match listing_of(*j) {
            Some(v) => r matches Some(fs) && remote_views(fs@) == v,
            None => r is None,
        },
{
    let items = match j {
        Json::Array(items) => items,
        _ => return None,
    };
    let mut out: Vec<RemoteFile> = Vec::new();
    let mut i: usize = 0;
    while i < items.len()
        invariant
            i <= items@.len(),
            remote_views(out@) == tree_files(items@.take(i as int)),
        decreases items@.len() - i,
    {
        assert(items@.take(i + 1).drop_last() =~= items@.take(i as int));
        assert(items@.take(i + 1).last() == items@[i as int]);
        let ghost before = out@;
        match tree_file_of(&items[i]) {
            Some(f) => {
                out.push(f);
                assert(remote_views(out@) =~= remote_views(before) + seq![remote_view(out@.last())]);
            },
            None => {
                assert(remote_views(out@) =~= remote_views(before) + Seq::empty());
            },
        }
        i += 1;
    }
    assert(items@.take(items@.len() as int) =~= items@);
    Some(out)
}

/// The files a repository's tree answer lists: the document read by
/// serde_json, then its file entries; an answer that is not a tree says so
/// under `context`.
pub fn remote_files(context: &str, body: &str) -> (r: Result<Vec<RemoteFile>>)
    ensures
        match json_read(body@) {
            Err(m) => r matches Err(Error::Internal { context: c, source: Some(s) }) && c@ == context@
                && s@ == m,
            Ok(j) => match listing_of(j) {
                Some(v) => r matches Ok(fs) && remote_views(fs@) == v,
                None => r matches Err(Error::Internal { context: c, source: Some(s) }) && c@
                    == context@ && s@ == "the answer is not a file tree"@,
            },
        },
{
    match read_json(body) {
        Err(m) => Err(Error::wrap(context, m.as_str())),
        Ok(j) => match files_from_json(&j) {
            Some(fs) => Ok(fs),
            None => Err(Error::wrap(context, "the answer is not a file tree")),
        },
    }
}

/// What the hub answering `status` to a request means: a missing
/// repository or file is not found; a refused one may be gated, which a
/// token fixes; anything else is the hub being unavailable. The message
/// gives the context, the status and the trimmed body.
pub open spec fn hub_refusal(context: Seq<char>, status: u16, body: Seq<char>) -> (bool, Seq<char>) {
    let text = context + ": HTTP "@ + decimal(status as nat) + " "@ + trimmed(body);
    if status == 404 {
        (true, text)
    } else if status == 401 || status == 403 {
        (
            false,
            text
                + ". If the repository is gated, accept its terms on huggingface.co and set HF_TOKEN"@,
        )
    } else {
        (false, text)
    }
}

pub fn hub_failure(context: &str, status: u16, body: &str) -> (e: Error)
    ensures
        ({
            let (missing, m) = hub_refusal(context@, status, body@);
            if missing {
                e matches Error::NotFound(x) && x@ == m
            } else {
                e matches Error::Unavailable(x) && x@ == m
            }
        }),
{
    let mut text = context.to_owned();
    text.append(": HTTP ");
    let s = decimal_string(status as u64);
    text.append(s.as_str());
    text.append(" ");
    let b = trim_text(body);
    text.append(b.as_str());
    if status == 404 {
        Error::NotFound(text)
    } else if status == 401 || status == 403 {
        text.append(". If the repository is gated, accept its terms on huggingface.co and set HF_TOKEN");
        Error::Unavailable(text)
    } else {
        Error::Unavailable(text)
    }
}

} // verus!
