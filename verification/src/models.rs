//! What the native model loader decides before any weight is read: which
//! architectures it runs and how each expects its rotary embedding, the
//! shape a checkpoint's metadata gives, the tensors it looks for, and the
//! device it runs on.
use vstd::prelude::*;

pub mod config;
pub mod device;
pub mod meta;
pub mod vocab;

use crate::kernel::error::{Error, Result};
use crate::text::{debug_quoted, debug_str, str_eq};

verus! {

/// The architectures the loader can run, by their GGUF
/// `general.architecture` name (Mistral, SmolLM and TinyLlama files all say
/// `llama`).
#[derive(Debug, Clone, Copy, PartialEq, Eq, Structural)]
pub enum Architecture {
    Llama,
    Qwen2,
}

pub open spec fn arch_name(a: Architecture) -> Seq<char> {
    match a {
        Architecture::Llama => "llama"@,
        Architecture::Qwen2 => "qwen2"@,
    }
}

impl Architecture {
    /// The architecture a file names, or why it cannot be run.
    pub fn parse(name: &str) -> (r: Result<Architecture>)
        ensures
            name@ == "llama"@ ==> r == Ok::<Architecture, Error>(Architecture::Llama),
            name@ == "qwen2"@ ==> r == Ok::<Architecture, Error>(Architecture::Qwen2),
            name@ != "llama"@ && name@ != "qwen2"@ ==> (r matches Err(Error::Invalid(m)) && m@
                == "architecture "@ + debug_quoted(name@) + " is not supported yet; infy runs llama, qwen2"@),
    {
        proof {
            reveal_strlit("llama");
            reveal_strlit("qwen2");
            assert("llama"@[0] != "qwen2"@[0]);
        }
        if str_eq(name, "llama") {
            Ok(Architecture::Llama)
        } else if str_eq(name, "qwen2") {
            Ok(Architecture::Qwen2)
        } else {
            let mut m = "architecture ".to_owned();
            let q = debug_str(name);
            m.append(q.as_str());
            m.append(" is not supported yet; infy runs llama, qwen2");
            Err(Error::Invalid(m))
        }
    }

    /// The name a GGUF file uses for it.
    pub fn gguf_name(self) -> (r: &'static str)
        ensures
            r@ == arch_name(self),
    {
        match self {
            Architecture::Llama => "llama",
            Architecture::Qwen2 => "qwen2",
        }
    }

    /// Whether the file's Q and K weights expect interleaved-pair rotary
    /// embedding. llama.cpp's converter permutes Llama's projections for the
    /// "normal" (adjacent pairs) rotation; Qwen2 is left as is and uses the
    /// NeoX convention (the two halves).
    pub fn rope_interleaved(self) -> (r: bool)
        ensures
            r == (self == Architecture::Llama),
    {
        match self {
            Architecture::Llama => true,
            Architecture::Qwen2 => false,
        }
    }
}

/// A file's own architecture name parses back to it.
pub proof fn law_architecture_name_round_trip(a: Architecture)
    ensures
        arch_name(a) == "llama"@ <==> a == Architecture::Llama,
        arch_name(a) == "qwen2"@ <==> a == Architecture::Qwen2,
{
    reveal_strlit("llama");
    reveal_strlit("qwen2");
    assert("llama"@[0] != "qwen2"@[0]);
}

/// A tensor the architecture reads: its name, its shape in `(out, in)`
/// orientation, and whether a file must have it.
#[derive(Debug, Clone, PartialEq, Eq)]
pub struct TensorSpec {
    pub name: String,
    pub shape: Vec<usize>,
    pub required: bool,
}

} // verus!
