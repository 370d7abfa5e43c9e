//! The architectures that code is decompiled from.

use vstd::prelude::*;

use crate::text::same_text;

verus! {

/// An architecture.
#[derive(Clone, Copy, Debug, PartialEq, Eq, Structural)]
pub enum Architecture {
    X86,
    X86_64,
    AArch64,
}

impl Architecture {
    /// How many bytes a pointer takes.
    pub open spec fn pointer_bytes(self) -> u16 {
        match self {
            Architecture::X86 => 4,
            Architecture::X86_64 => 8,
            Architecture::AArch64 => 8,
        }
    }

    /// The name that revng knows the architecture by.
    pub open spec fn name(self) -> Seq<char> {
        match self {
            Architecture::X86 => "x86"@,
            Architecture::X86_64 => "x86_64"@,
            Architecture::AArch64 => "aarch64"@,
        }
    }

    /// The ABI that revng assumes for the architecture unless told otherwise.
    pub open spec fn usual_abi(self) -> Seq<char> {
        match self {
            Architecture::X86 => "SystemV_x86"@,
            Architecture::X86_64 => "SystemV_x86_64"@,
            Architecture::AArch64 => "AAPCS64"@,
        }
    }

    /// How many bytes a pointer takes.
    pub fn pointer_size(self) -> (size: u16)
        ensures
            size == self.pointer_bytes(),
    {
        match self {
            Architecture::X86 => 4,
            Architecture::X86_64 => 8,
            Architecture::AArch64 => 8,
        }
    }

    /// The name that revng knows the architecture by.
    pub fn revng_name(self) -> (name: &'static str)
        ensures
            name@ == self.name(),
    {
        match self {
            Architecture::X86 => "x86",
            Architecture::X86_64 => "x86_64",
            Architecture::AArch64 => "aarch64",
        }
    }

    /// The ABI that is assumed for the architecture unless told otherwise.
    pub fn default_abi(self) -> (abi: &'static str)
        ensures
            abi@ == self.usual_abi(),
    {
        match self {
            Architecture::X86 => "SystemV_x86",
            Architecture::X86_64 => "SystemV_x86_64",
            Architecture::AArch64 => "AAPCS64",
        }
    }
}

/// The architecture that `value` names, if it names one.
pub open spec fn named_architecture(value: Seq<char>) -> Option<Architecture> {
    if value == "x86"@ {
        Some(Architecture::X86)
    } else if value == "x86_64"@ {
        Some(Architecture::X86_64)
    } else if value == "aarch64"@ {
        Some(Architecture::AArch64)
    } else {
        None
    }
}

/// What to say of a name that is no architecture's.
pub open spec fn unknown_architecture(value: Seq<char>) -> Seq<char> {
    "unknown architecture '"@ + value + "' (expected x86, x86_64 or aarch64)"@
}

/// Reads the name of an architecture.
pub fn parse_architecture(value: &str) -> (parsed: Result<Architecture, String>)
    ensures
        match parsed {
            Ok(architecture) => named_architecture(value@) == Some(architecture),
            Err(message) => named_architecture(value@) is None && message@ == unknown_architecture(
                value@,
            ),
        },
{
    if same_text(value, "x86") {
        Ok(Architecture::X86)
    } else if same_text(value, "x86_64") {
        Ok(Architecture::X86_64)
    } else if same_text(value, "aarch64") {
        Ok(Architecture::AArch64)
    } else {
        let mut message = "unknown architecture '".to_owned();
        message.append(value);
        message.append("' (expected x86, x86_64 or aarch64)");
        Err(message)
    }
}

/// Each architecture is read from the name that revng knows it by.
pub proof fn architecture_read_back(architecture: Architecture)
    ensures
        named_architecture(architecture.name()) == Some(architecture),
{
    reveal_strlit("x86");
    reveal_strlit("x86_64");
    reveal_strlit("aarch64");
    assert("x86"@.len() == 3);
    assert("x86_64"@.len() == 6);
    assert("aarch64"@.len() == 7);
}

/// Of the three architectures, x86 has pointers of four bytes and the others of eight; each has its
/// own name and its own usual ABI; and no other name is that of an architecture.
pub proof fn architectures_are_told_apart(value: Seq<char>)
    ensures
        Architecture::X86.pointer_bytes() == 4,
        Architecture::X86_64.pointer_bytes() == 8,
        Architecture::AArch64.pointer_bytes() == 8,
        Architecture::X86.name() == "x86"@,
        Architecture::X86_64.name() == "x86_64"@,
        Architecture::AArch64.name() == "aarch64"@,
        Architecture::X86.usual_abi() == "SystemV_x86"@,
        Architecture::X86_64.usual_abi() == "SystemV_x86_64"@,
        Architecture::AArch64.usual_abi() == "AAPCS64"@,
        match named_architecture(value) {
            Some(architecture) => value == architecture.name(),
            None => value != "x86"@ && value != "x86_64"@ && value != "aarch64"@,
        },
        unknown_architecture(value) == "unknown architecture '"@ + value
            + "' (expected x86, x86_64 or aarch64)"@,
{
}

} // verus!
