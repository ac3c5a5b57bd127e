//! Why building or starting a process failed.
use vstd::prelude::*;
use crate::text::{hex_fixed, push_hex_fixed, push_text};

verus! {

#[derive(Debug, Clone, Copy, PartialEq, Eq, Structural)]
pub enum ProcessBuilderError {
    BufferOverflow,
    CouldNotOpenFile,
    InvalidImageFormat,
    MachineMismatch,
    ImageFileExecutionOptions,
    CouldNotCreateSection,
    ImagePathEmpty,
    NtOpenProcessFailed(i32),
    InvalidParameter,
    NtCreateUserProcessFailed(i32),
    AttributesBuildFailed,
    ProcessParamsBuildFailed,
    EnvironmentBuildFailed,
}

impl ProcessBuilderError {
    /// A status that process creation returned.
    pub fn from_ntstatus(status: i32) -> (r: Self)
        ensures
            r == ProcessBuilderError::NtCreateUserProcessFailed(status),
    {
        ProcessBuilderError::NtCreateUserProcessFailed(status)
    }

    /// The text of the error, without the status where it carries one.
    pub fn message(&self) -> (r: &'static str)
        ensures
            r == self.spec_message(),
    {
        match self {
            ProcessBuilderError::BufferOverflow => "Buffer overflow: insufficient buffer size",
            ProcessBuilderError::ImagePathEmpty => "Image path is empty",
            ProcessBuilderError::NtOpenProcessFailed(_) => "NtOpenProcess failed with status: ",
            ProcessBuilderError::InvalidParameter => "Invalid parameter provided",
            ProcessBuilderError::NtCreateUserProcessFailed(_) => "NtCreateUserProcess failed with status: ",
            ProcessBuilderError::AttributesBuildFailed => "Failed to build process attributes",
            ProcessBuilderError::ProcessParamsBuildFailed => "Failed to build process parameters",
            ProcessBuilderError::EnvironmentBuildFailed => "Failed to build environment block",
            ProcessBuilderError::CouldNotOpenFile => "Failed to open file",
            ProcessBuilderError::InvalidImageFormat => "Invalid image format",
            ProcessBuilderError::CouldNotCreateSection => "Could not create section",
            ProcessBuilderError::MachineMismatch => "Machine mismatch",
            ProcessBuilderError::ImageFileExecutionOptions => "ImageFileExecutionOptions?",
        }
    }

    pub open spec fn spec_message(&self) -> &'static str {
        match self {
            ProcessBuilderError::BufferOverflow => "Buffer overflow: insufficient buffer size",
            ProcessBuilderError::ImagePathEmpty => "Image path is empty",
            ProcessBuilderError::NtOpenProcessFailed(_) => "NtOpenProcess failed with status: ",
            ProcessBuilderError::InvalidParameter => "Invalid parameter provided",
            ProcessBuilderError::NtCreateUserProcessFailed(_) => "NtCreateUserProcess failed with status: ",
            ProcessBuilderError::AttributesBuildFailed => "Failed to build process attributes",
            ProcessBuilderError::ProcessParamsBuildFailed => "Failed to build process parameters",
            ProcessBuilderError::EnvironmentBuildFailed => "Failed to build environment block",
            ProcessBuilderError::CouldNotOpenFile => "Failed to open file",
            ProcessBuilderError::InvalidImageFormat => "Invalid image format",
            ProcessBuilderError::CouldNotCreateSection => "Could not create section",
            ProcessBuilderError::MachineMismatch => "Machine mismatch",
            ProcessBuilderError::ImageFileExecutionOptions => "ImageFileExecutionOptions?",
        }
    }

    /// The text of the error, with the status in eight hex digits where it
    /// carries one.
    pub fn to_string(&self) -> (r: String)
        ensures
            r@ == self.spec_message()@ + match self {
                ProcessBuilderError::NtOpenProcessFailed(st) => "0x"@ + hex_fixed(*st as u32 as nat, 8, false),
                ProcessBuilderError::NtCreateUserProcessFailed(st) => "0x"@ + hex_fixed(*st as u32 as nat, 8, false),
                _ => Seq::<char>::empty(),
            },
    {
        let mut s = String::new();
        push_text(&mut s, self.message());
        match self {
            ProcessBuilderError::NtOpenProcessFailed(st) | ProcessBuilderError::NtCreateUserProcessFailed(st) => {
                push_text(&mut s, "0x");
                push_hex_fixed(&mut s, *st as u32 as u64, 8, false);
            },
            _ => {
                assert(s@ =~= s@ + Seq::<char>::empty());
            },
        }
        s
    }

    /// The status an error carries, if any.
    pub fn status(&self) -> (r: Option<i32>)
        ensures
            r == match self {
                ProcessBuilderError::NtOpenProcessFailed(s) => Some(*s),
                ProcessBuilderError::NtCreateUserProcessFailed(s) => Some(*s),
                _ => None::<i32>,
            },
    {
        match self {
            ProcessBuilderError::NtOpenProcessFailed(s) => Some(*s),
            ProcessBuilderError::NtCreateUserProcessFailed(s) => Some(*s),
            _ => None,
        }
    }
}

impl From<i32> for ProcessBuilderError {
    fn from(status: i32) -> (r: Self) {
        ProcessBuilderError::NtCreateUserProcessFailed(status)
    }
}

impl vstd::std_specs::convert::FromSpecImpl<i32> for ProcessBuilderError {
    open spec fn obeys_from_spec() -> bool {
        true
    }

    open spec fn from_spec(v: i32) -> Self {
        ProcessBuilderError::NtCreateUserProcessFailed(v)
    }
}

} // verus!
