//! Flags and environment, turned into values: where data lives, which
//! device, the hub token, and the per-runtime overrides. Reading the flags
//! and the environment is the caller's; what they mean is decided here.
use vstd::prelude::*;

use crate::kernel::error::{Error, Result};
use crate::kernel::model_ref::{trim_text, trimmed};
use crate::runtime::logic::{kind_named, RuntimeKind};
use crate::runtime::service::{Overrides, RuntimeConfig};
use crate::hub::service::LocalModel;
use crate::text::{
    decimal, decimal_string, join, join_path, join_strings, joined_path, debug_quoted, debug_str, lower,
    split_once, split_once_char, string_views,
};

verus! {

/// Which model a command talks to.
#[derive(Debug, Clone, PartialEq, Eq)]
pub struct ModelArgs {
    /// hf:owner/repo, a local name or path, or ollama:/llamacpp:/lmstudio:name.
    pub model: Option<String>,
    /// Print the exact prompt as sent, after the chat template.
    pub show_prompt: bool,
}

/// What `infy runtime` was asked to do.
#[derive(Debug, Clone, PartialEq, Eq)]
pub enum RuntimeAction {
    /// What is installed, what is running, what it serves; one runtime, or
    /// all when omitted.
    Status { runtime: Option<String> },
    /// Start a runtime's server and wait until it answers.
    Start {
        runtime: String,
        /// The GGUF to serve (llama.cpp needs one).
        model: Option<String>,
        /// Context length to serve with.
        ctx: Option<usize>,
        /// Layers to offload to the GPU.
        gpu_layers: Option<usize>,
    },
    /// Stop a runtime infy started.
    Stop { runtime: String },
    /// Show how to install a runtime; run it with `yes`.
    Install { runtime: String, yes: bool },
    /// The models a running runtime serves.
    Models { runtime: String },
}

/// What a `name=value` override means, or why it is refused.
pub open spec fn override_of(spec: Seq<char>) -> core::result::Result<(RuntimeKind, Seq<char>), Seq<char>> {
    let malformed = "runtime override "@ + debug_quoted(spec)
        + " must be name=value, e.g. ollama=/usr/local/bin/ollama"@;
    match split_once(spec, '=') {
        Some((name, value)) => if name.len() > 0 && value.len() > 0 {
            match kind_named(lower(name)) {
                Some(k) => Ok((k, value)),
                None => Err(
                    "unknown runtime "@ + debug_quoted(lower(name))
                        + "; infy knows ollama, llamacpp and lmstudio"@,
                ),
            }
        } else {
            Err(malformed)
        },
        None => Err(malformed),
    }
}

/// `name=value` for a runtime override.
pub fn parse_override(spec: &str) -> (r: Result<(RuntimeKind, String)>)
    ensures
        match override_of(spec@) {
            Ok((k, v)) => r matches Ok((kk, vv)) && kk == k && vv@ == v,
            Err(m) => r matches Err(Error::Invalid(x)) && x@ == m,
        },
{
    match split_once_char(spec, '=') {
        Some((name, value)) => {
            if !name.as_str().is_empty() && !value.as_str().is_empty() {
                match RuntimeKind::parse(name.as_str()) {
                    Ok(k) => return Ok((k, value)),
                    Err(e) => return Err(e),
                }
            }
        },
        None => {},
    }
    let mut m = "runtime override ".to_owned();
    let q = debug_str(spec);
    m.append(q.as_str());
    m.append(" must be name=value, e.g. ollama=/usr/local/bin/ollama");
    Err(Error::Invalid(m))
}

/// The message of the first override of `specs` that is refused.
pub open spec fn first_refusal(specs: Seq<Seq<char>>) -> Option<Seq<char>>
    decreases specs.len(),
{
    if specs.len() == 0 {
        None
    } else {
        match override_of(specs[0]) {
            Err(m) => Some(m),
            Ok(_) => first_refusal(specs.drop_first()),
        }
    }
}

/// The value the last override of `specs` naming `k` gives it.
pub open spec fn last_value_for(specs: Seq<Seq<char>>, k: RuntimeKind) -> Option<Seq<char>>
    decreases specs.len(),
{
    if specs.len() == 0 {
        None
    } else {
        match override_of(specs.last()) {
            Ok((kk, v)) => if kk == k {
                Some(v)
            } else {
                last_value_for(specs.drop_last(), k)
            },
            Err(_) => last_value_for(specs.drop_last(), k),
        }
    }
}

pub open spec fn opt_view(o: Option<String>) -> Option<Seq<char>> {
    match o {
        Some(s) => Some(s@),
        None => None,
    }
}

/// A token that is set and not blank.
pub open spec fn usable_token(t: Option<Seq<char>>) -> Option<Seq<char>> {
    match t {
        Some(s) => if trimmed(s).len() == 0 {
            None
        } else {
            Some(s)
        },
        None => None,
    }
}

/// Everything the commands need, as plain values.
pub struct Bootstrap {
    pub data_dir: String,
    pub models_dir: String,
    pub device: String,
    pub log: String,
    pub hf_token: Option<String>,
    pub runtime_overrides: Overrides,
}

/// The first refusal among `specs`, with the ones before it all accepted.
proof fn lemma_first_refusal_step(specs: Seq<Seq<char>>, i: int)
    requires
        0 <= i < specs.len(),
        first_refusal(specs) == first_refusal(specs.skip(i)),
        override_of(specs[i]) is Ok,
    ensures
        first_refusal(specs) == first_refusal(specs.skip(i + 1)),
{
    assert(specs.skip(i)[0] == specs[i]);
    assert(specs.skip(i).drop_first() =~= specs.skip(i + 1));
}

impl Bootstrap {
    /// The settings, from the flags' values: the models directory defaults
    /// to `<data_dir>/models`; every `name=path` of `runtime_bins` and
    /// `name=url` of `runtime_urls` overrides that runtime's binary or
    /// address, the last one for a runtime winning; a blank token is no
    /// token.
    pub fn new(
        data_dir: String,
        models_dir: Option<String>,
        device: String,
        log: String,
        hf_token: Option<String>,
        runtime_bins: &[String],
        runtime_urls: &[String],
    ) -> (r: Result<Bootstrap>)
        ensures
            match first_refusal(string_views(runtime_bins@)) {
                Some(m) => r matches Err(Error::Invalid(x)) && x@ == m,
                None => match first_refusal(string_views(runtime_urls@)) {
                    Some(m) => r matches Err(Error::Invalid(x)) && x@ == m,
                    None => r matches Ok(b) && b.data_dir@ == data_dir@ && b.models_dir@ == (
                    match models_dir {
                        Some(m) => m@,
                        None => joined_path(data_dir@, "models"@),
                    }) && b.device@ == device@ && b.log@ == log@ && opt_view(b.hf_token)
                        == usable_token(opt_view(hf_token)) && forall|k: RuntimeKind|
                        opt_view(#[trigger] b.runtime_overrides.config(k).binary) == last_value_for(
                            string_views(runtime_bins@),
                            k,
                        ) && opt_view(b.runtime_overrides.config(k).url) == last_value_for(
                            string_views(runtime_urls@),
                            k,
                        ),
                },
            },
    {
        let models_dir = match models_dir {
            Some(m) => m,
            None => join_path(data_dir.as_str(), "models"),
        };
        let mut overrides = Overrides::new();
        let mut i: usize = 0;
        proof {
            assert(string_views(runtime_bins@).skip(0) =~= string_views(runtime_bins@));
            assert(string_views(runtime_bins@).take(0) =~= Seq::<Seq<char>>::empty());
        }
        while i < runtime_bins.len()
            invariant
                i <= runtime_bins@.len(),
                first_refusal(string_views(runtime_bins@)) == first_refusal(
                    string_views(runtime_bins@).skip(i as int),
                ),
                forall|k: RuntimeKind|
                    opt_view(#[trigger] overrides.config(k).binary) == last_value_for(
                        string_views(runtime_bins@).take(i as int),
                        k,
                    ) && overrides.config(k).url is None,
            decreases runtime_bins@.len() - i,
        {
            let ghost sv = string_views(runtime_bins@);
            assert(sv[i as int] == runtime_bins@[i as int]@);
            match parse_override(runtime_bins[i].as_str()) {
                Ok((k, v)) => {
                    let c = RuntimeConfig { binary: Some(v), url: None };
                    overrides.set(k, c);
                    proof {
                        lemma_first_refusal_step(sv, i as int);
                        assert(sv.take(i + 1).drop_last() =~= sv.take(i as int));
                        assert(sv.take(i + 1).last() == sv[i as int]);
                    }
                },
                Err(e) => {
                    proof {
                        assert(sv.skip(i as int)[0] == sv[i as int]);
                    }
                    return Err(e);
                },
            }
            i += 1;
        }
        assert(string_views(runtime_bins@).take(i as int) =~= string_views(runtime_bins@));
        assert(string_views(runtime_bins@).skip(i as int) =~= Seq::<Seq<char>>::empty());
        assert(first_refusal(string_views(runtime_bins@)) is None);
        let ghost bins_done = overrides;
        let mut j: usize = 0;
        proof {
            assert(string_views(runtime_urls@).skip(0) =~= string_views(runtime_urls@));
            assert(string_views(runtime_urls@).take(0) =~= Seq::<Seq<char>>::empty());
        }
        while j < runtime_urls.len()
            invariant
                j <= runtime_urls@.len(),
                first_refusal(string_views(runtime_bins@)) is None,
                first_refusal(string_views(runtime_urls@)) == first_refusal(
                    string_views(runtime_urls@).skip(j as int),
                ),
                forall|k: RuntimeKind|
                    #[trigger] overrides.config(k).binary == bins_done.config(k).binary && opt_view(
                        overrides.config(k).url,
                    ) == last_value_for(string_views(runtime_urls@).take(j as int), k),
            decreases runtime_urls@.len() - j,
        {
            let ghost sv = string_views(runtime_urls@);
            assert(sv[j as int] == runtime_urls@[j as int]@);
            match parse_override(runtime_urls[j].as_str()) {
                Ok((k, v)) => {
                    let b = overrides.get(k).binary.clone();
                    let c = RuntimeConfig { binary: b, url: Some(v) };
                    overrides.set(k, c);
                    proof {
                        lemma_first_refusal_step(sv, j as int);
                        assert(sv.take(j + 1).drop_last() =~= sv.take(j as int));
                        assert(sv.take(j + 1).last() == sv[j as int]);
                    }
                },
                Err(e) => {
                    proof {
                        assert(sv.skip(j as int)[0] == sv[j as int]);
                    }
                    return Err(e);
                },
            }
            j += 1;
        }
        assert(string_views(runtime_urls@).take(j as int) =~= string_views(runtime_urls@));
        assert(string_views(runtime_urls@).skip(j as int) =~= Seq::<Seq<char>>::empty());
        let hf_token = match hf_token {
            Some(t) => {
                let tt = trim_text(t.as_str());
                if tt.as_str().is_empty() {
                    None
                } else {
                    Some(t)
                }
            },
            None => None,
        };
        Ok(Bootstrap { data_dir, models_dir, device, log, hf_token, runtime_overrides: overrides })
    }

    /// Where the pids of started runtimes are kept.
    pub fn run_dir(&self) -> (r: String)
        ensures
            r@ == joined_path(self.data_dir@, "run"@),
    {
        join_path(self.data_dir.as_str(), "run")
    }

    /// Where the hub client caches what it downloads.
    pub fn hub_cache_dir(&self) -> (r: String)
        ensures
            r@ == joined_path(self.data_dir@, "hub-cache"@),
    {
        join_path(self.data_dir.as_str(), "hub-cache")
    }
}


/// The names of local models.
pub open spec fn model_names(ms: Seq<LocalModel>) -> Seq<Seq<char>> {
    ms.map_values(|m: LocalModel| m.name@)
}

/// The model a command uses when none is named: the only one there is.
/// With none, say where nothing was found and how to get one; with several,
/// list them.
pub fn default_model(local: &[LocalModel], models_dir: &str) -> (r: Result<String>)
    ensures
        local@.len() == 1 ==> (r matches Ok(n) && n@ == local@[0].name@),
        local@.len() == 0 ==> (r matches Err(Error::NotFound(m)) && m@ == "no model: nothing in "@
            + models_dir@
            + " and no --model given. Pull one with `infy pull hf:owner/repo`, or use a runtime's model with --model ollama:<name>"@),
        local@.len() > 1 ==> (r matches Err(Error::Invalid(m)) && m@ == decimal(local@.len())
            + " local models; choose one with --model: "@ + join(model_names(local@), ", "@)),
{
    if local.len() == 1 {
        return Ok(local[0].name.clone());
    }
    if local.len() == 0 {
        let mut m = "no model: nothing in ".to_owned();
        m.append(models_dir);
        m.append(
            " and no --model given. Pull one with `infy pull hf:owner/repo`, or use a runtime's model with --model ollama:<name>",
        );
        return Err(Error::NotFound(m));
    }
    let mut names: Vec<String> = Vec::new();
    let mut i: usize = 0;
    while i < local.len()
        invariant
            i <= local@.len(),
            string_views(names@) == model_names(local@.take(i as int)),
        decreases local@.len() - i,
    {
        let ghost before = names@;
        names.push(local[i].name.clone());
        assert(string_views(names@) =~= string_views(before).push(local@[i as int].name@));
        assert(model_names(local@.take(i + 1)) =~= model_names(local@.take(i as int)).push(
            local@[i as int].name@,
        ));
        i += 1;
    }
    assert(local@.take(local@.len() as int) =~= local@);
    let mut m = decimal_string(local.len() as u64);
    m.append(" local models; choose one with --model: ");
    let j = join_strings(&names, ", ");
    m.append(j.as_str());
    Err(Error::Invalid(m))
}

} // verus!
