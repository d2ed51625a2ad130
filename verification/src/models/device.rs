//! Which compute device a `--device` value asks for, given what this build
//! and this machine can offer.
use vstd::prelude::*;
use vstd::string::*;

use crate::kernel::error::{Error, Result};
use crate::runtime::logic::{digits_at_most, parse_bounded};
use crate::text::{chars_of, debug_quoted, debug_str, starts_with, str_eq, str_starts_with};

verus! {

/// A compute device.
#[derive(Debug, Clone, Copy, PartialEq, Eq, Structural)]
pub enum DeviceChoice {
    Cpu,
    /// A CUDA device, by its ordinal.
    Cuda(usize),
    Metal,
}

/// `s.parse::<usize>()`: an optional `+`, then one or more decimal digits
/// whose value fits.
pub open spec fn parse_usize(s: Seq<char>) -> Option<usize> {
    match parse_bounded(s, usize::MAX as nat) {
        Some(n) => Some(n as usize),
        None => None,
    }
}

/// Why a device value is refused: a value that means nothing, or a device
/// this build cannot drive.
pub enum DeviceRefusal {
    Invalid(Seq<char>),
    Unavailable(Seq<char>),
}

pub open spec fn no_cuda() -> Seq<char> {
    "this build has no CUDA support; rebuild with `--features cuda` on a machine with the CUDA toolkit"@
}

pub open spec fn no_metal() -> Seq<char> {
    "this build has no Metal support; rebuild with `--features metal` on macOS"@
}

/// What a device value asks for: `cpu`; `auto` (CUDA device 0 when CUDA
/// is available, else Metal when it is, else the CPU); `cuda` (device 0) or
/// `cuda:<n>`; `metal`. CUDA and Metal must be available.
pub open spec fn device_for(spec: Seq<char>, cuda: bool, metal: bool) -> core::result::Result<
    DeviceChoice,
    DeviceRefusal,
> {
    if spec == "cpu"@ {
        Ok(DeviceChoice::Cpu)
    } else if spec == "auto"@ {
        Ok(
            if cuda {
                DeviceChoice::Cuda(0)
            } else if metal {
                DeviceChoice::Metal
            } else {
                DeviceChoice::Cpu
            },
        )
    } else if spec == "cuda"@ || starts_with(spec, "cuda:"@) {
        let ordinal = if starts_with(spec, "cuda:"@) {
            parse_usize(spec.skip(5))
        } else {
            Some(0usize)
        };
        match ordinal {
            None => Err(
                DeviceRefusal::Invalid("device "@ + debug_quoted(spec) + ": expected cuda or cuda:<n>"@),
            ),
            Some(n) => if cuda {
                Ok(DeviceChoice::Cuda(n))
            } else {
                Err(DeviceRefusal::Unavailable(no_cuda()))
            },
        }
    } else if spec == "metal"@ {
        if metal {
            Ok(DeviceChoice::Metal)
        } else {
            Err(DeviceRefusal::Unavailable(no_metal()))
        }
    } else {
        Err(
            DeviceRefusal::Invalid(
                "unknown device "@ + debug_quoted(spec) + "; use auto, cpu, cuda, cuda:<n> or metal"@,
            ),
        )
    }
}

/// The device a `--device` value asks for, given whether this build can
/// drive CUDA and Metal.
pub fn choose_device(spec: &str, cuda_available: bool, metal_available: bool) -> (r: Result<DeviceChoice>)
    ensures
        match device_for(spec@, cuda_available, metal_available) {
            Ok(d) => r matches Ok(x) && x == d,
            Err(DeviceRefusal::Invalid(m)) => r matches Err(Error::Invalid(x)) && x@ == m,
            Err(DeviceRefusal::Unavailable(m)) => r matches Err(Error::Unavailable(x)) && x@ == m,
        },
{
    proof {
        reveal_strlit("cpu");
        reveal_strlit("auto");
        reveal_strlit("cuda");
        reveal_strlit("cuda:");
        reveal_strlit("metal");
    }
    if str_eq(spec, "cpu") {
        return Ok(DeviceChoice::Cpu);
    }
    if str_eq(spec, "auto") {
        return Ok(
            if cuda_available {
                DeviceChoice::Cuda(0)
            } else if metal_available {
                DeviceChoice::Metal
            } else {
                DeviceChoice::Cpu
            },
        );
    }
    let is_cuda = str_eq(spec, "cuda");
    let prefixed = str_starts_with(spec, "cuda:");
    if is_cuda || prefixed {
        let ordinal = if prefixed {
            let cs = chars_of(spec);
            match digits_at_most(&cs, 5, usize::MAX as u64) {
                Some(n) => Some(n as usize),
                None => None,
            }
        } else {
            Some(0usize)
        };
        return match ordinal {
            None => {
                let mut m = "device ".to_owned();
                let q = debug_str(spec);
                m.append(q.as_str());
                m.append(": expected cuda or cuda:<n>");
                Err(Error::Invalid(m))
            },
            Some(n) => {
                if cuda_available {
                    Ok(DeviceChoice::Cuda(n))
                } else {
                    Err(
                        Error::Unavailable(
                            "this build has no CUDA support; rebuild with `--features cuda` on a machine with the CUDA toolkit".to_owned(),
                        ),
                    )
                }
            },
        };
    }
    if str_eq(spec, "metal") {
        return if metal_available {
            Ok(DeviceChoice::Metal)
        } else {
            Err(
                Error::Unavailable(
                    "this build has no Metal support; rebuild with `--features metal` on macOS".to_owned(),
                ),
            )
        };
    }
    let mut m = "unknown device ".to_owned();
    let q = debug_str(spec);
    m.append(q.as_str());
    m.append("; use auto, cpu, cuda, cuda:<n> or metal");
    Err(Error::Invalid(m))
}

} // verus!
