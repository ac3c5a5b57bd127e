//! A process to create: how it is created, its environment, its parameter
//! block and its attribute list, and what a failed creation means.
//!
//! Creation itself is a system call made by the caller: `prepare` lays out
//! the blocks, the caller opens the parent where one is set and hands the
//! outcome to `add_parent_process`, makes the call and reads its outcome
//! with `check_creation`.
use vstd::prelude::*;
use crate::process::attributes::{AttributesBuilder, AttributesView, empty_attributes_view};
use crate::process::environment::EnvironmentBuilder;
use crate::process::error::ProcessBuilderError;
use crate::process::params::{ProcessParamsBuilder, ParamsView, LENGTH_SLACK, PARAMS_SIZE, empty_params_view};

verus! {

pub const PROCESS_CREATE_FLAGS_SUSPENDED: u32 = 0x200;
pub const THREAD_CREATE_FLAGS_CREATE_SUSPENDED: u32 = 0x1;

/// The console handle of a process without a console.
pub const INVALID_HANDLE_VALUE: usize = usize::MAX;

/// The start flags of a suspended process, and of one created for
/// debugging.
pub const SUSPENDED_INIT_FLAGS: u32 = 0x2000_0003;
pub const DEBUG_INIT_FLAGS: u32 = 0x2000_000F;

/// The extra file access of a suspended process.
pub const SUSPENDED_FILE_ACCESS: u32 = 0x81;

/// What a created process is: its ids and where its parts are.
#[derive(Debug, Clone, Copy, PartialEq, Eq, Structural)]
pub struct ProcessInfo {
    pub pid: u32,
    pub tid: u32,
    pub entry_point: usize,
    pub peb_addr: u64,
    pub section_handle: usize,
    pub file_handle: usize,
    pub params_addr: u64,
    pub output_flags: u32,
    pub manifest_addr: u64,
    pub manifest_size: u32,
}

/// The error a failed creation gives: the stage it stopped at, where the
/// stage says what failed, else the status.
pub open spec fn spec_creation_error(state: u32, status: i32) -> ProcessBuilderError {
    if state == 1 {
        ProcessBuilderError::CouldNotOpenFile
    } else if state == 2 {
        ProcessBuilderError::CouldNotCreateSection
    } else if state == 3 {
        ProcessBuilderError::InvalidImageFormat
    } else if state == 4 {
        ProcessBuilderError::MachineMismatch
    } else if state == 5 {
        ProcessBuilderError::ImageFileExecutionOptions
    } else {
        ProcessBuilderError::NtCreateUserProcessFailed(status)
    }
}

/// What the creation call's status and stage mean: success for a status
/// that is not negative, else the error of the stage.
pub fn check_creation(status: i32, state: u32) -> (r: Result<(), ProcessBuilderError>)
    ensures
        status >= 0 ==> r is Ok,
        status < 0 ==> r == Err::<(), ProcessBuilderError>(spec_creation_error(state, status)),
{
    if status >= 0 {
        return Ok(());
    }
    let e = match state {
        1 => ProcessBuilderError::CouldNotOpenFile,
        2 => ProcessBuilderError::CouldNotCreateSection,
        3 => ProcessBuilderError::InvalidImageFormat,
        4 => ProcessBuilderError::MachineMismatch,
        5 => ProcessBuilderError::ImageFileExecutionOptions,
        _ => ProcessBuilderError::from(status),
    };
    Err(e)
}

/// How a process is created, and its blocks.
pub struct CreationView {
    pub process_desired_access: u32,
    pub thread_desired_access: u32,
    pub process_flags: u32,
    pub thread_flags: u32,
    pub init_flags: u32,
    pub additional_file_access: u32,
    pub environment: Seq<u8>,
    pub environment_len: int,
    pub params: ParamsView,
    pub attributes: AttributesView,
}

/// A process to create, with its environment, parameter block and
/// attribute list.
pub struct ProcessBuilder<'a, const ENV_SIZE: usize, const PROCESS_PARAM_SIZE: usize, const ATTR_SIZE: usize> {
    process_desired_access: u32,
    thread_desired_access: u32,
    process_flags: u32,
    thread_flags: u32,
    init_flags: u32,
    additional_file_access: u32,
    environment: EnvironmentBuilder<ENV_SIZE>,
    process_params: ProcessParamsBuilder<'a, PROCESS_PARAM_SIZE>,
    attributes: AttributesBuilder<'a, ATTR_SIZE>,
}

impl<'a, const ENV_SIZE: usize, const PROCESS_PARAM_SIZE: usize, const ATTR_SIZE: usize> View for ProcessBuilder<
    'a,
    ENV_SIZE,
    PROCESS_PARAM_SIZE,
    ATTR_SIZE,
> {
    type V = CreationView;

    closed spec fn view(&self) -> CreationView {
        CreationView {
            process_desired_access: self.process_desired_access,
            thread_desired_access: self.thread_desired_access,
            process_flags: self.process_flags,
            thread_flags: self.thread_flags,
            init_flags: self.init_flags,
            additional_file_access: self.additional_file_access,
            environment: self.environment.bytes(),
            environment_len: self.environment.used(),
            params: self.process_params@,
            attributes: self.attributes@,
        }
    }
}

impl<'a, const ENV_SIZE: usize, const PROCESS_PARAM_SIZE: usize, const ATTR_SIZE: usize> ProcessBuilder<
    'a,
    ENV_SIZE,
    PROCESS_PARAM_SIZE,
    ATTR_SIZE,
> {
    pub closed spec fn wf(&self) -> bool {
        &&& self.environment.wf()
        &&& self.process_params.wf()
        &&& self.attributes.wf()
    }

    /// Nothing is laid out yet: the parameter block is empty and its fixed
    /// part unplaced.
    pub open spec fn fresh(&self) -> bool {
        &&& self@.params.used == 0
        &&& !self@.params.params_written
        &&& self@.params.params.length == 0
        &&& self@.params.params.maximum_length == 0
    }

    /// A process with default creation flags, an empty environment and
    /// empty blocks.
    pub fn new() -> (r: Self)
        requires
            PROCESS_PARAM_SIZE > PARAMS_SIZE + 100,
            PROCESS_PARAM_SIZE + 2 * LENGTH_SLACK <= usize::MAX,
            ATTR_SIZE + 0x10000 <= usize::MAX,
            ATTR_SIZE <= u32::MAX,
        ensures
            r.wf(),
            r.fresh(),
            r@.process_desired_access == 0,
            r@.thread_desired_access == 0,
            r@.process_flags == 0,
            r@.thread_flags == 0,
            r@.init_flags == 0,
            r@.additional_file_access == 0,
            r@.environment_len == 0,
            r@.environment == Seq::new(ENV_SIZE as nat, |i: int| 0u8),
            r@.params == empty_params_view(PROCESS_PARAM_SIZE as nat),
            r@.attributes == empty_attributes_view(ATTR_SIZE as nat),
    {
        ProcessBuilder {
            process_desired_access: 0,
            thread_desired_access: 0,
            process_flags: 0,
            thread_flags: 0,
            init_flags: 0,
            additional_file_access: 0,
            environment: EnvironmentBuilder::new(),
            process_params: ProcessParamsBuilder::new(),
            attributes: AttributesBuilder::new(),
        }
    }

    /// Without a console.
    pub fn detached(self) -> (r: Self)
        ensures
            r.wf() == self.wf(),
            r.fresh() == self.fresh(),
            r@ == (CreationView {
                params: ParamsView { console_handle: INVALID_HANDLE_VALUE, ..self@.params },
                ..self@
            }),
    {
        let mut s = self;
        s.process_params.set_console_handle(INVALID_HANDLE_VALUE);
        s
    }

    /// Started for debugging.
    pub fn debug(self) -> (r: Self)
        ensures
            r.wf() == self.wf(),
            r.fresh() == self.fresh(),
            r@ == (CreationView { init_flags: DEBUG_INIT_FLAGS, ..self@ }),
    {
        let mut s = self;
        s.init_flags = DEBUG_INIT_FLAGS;
        s
    }

    /// Created with its first thread suspended.
    pub fn suspended(self) -> (r: Self)
        ensures
            r.wf() == self.wf(),
            r.fresh() == self.fresh(),
            r@ == (CreationView {
                process_desired_access: self@.process_desired_access | PROCESS_CREATE_FLAGS_SUSPENDED,
                thread_desired_access: self@.thread_desired_access | PROCESS_CREATE_FLAGS_SUSPENDED,
                thread_flags: self@.thread_flags | THREAD_CREATE_FLAGS_CREATE_SUSPENDED,
                init_flags: SUSPENDED_INIT_FLAGS,
                additional_file_access: SUSPENDED_FILE_ACCESS,
                ..self@
            }),
    {
        let mut s = self;
        s.process_desired_access = s.process_desired_access | PROCESS_CREATE_FLAGS_SUSPENDED;
        s.thread_desired_access = s.thread_desired_access | PROCESS_CREATE_FLAGS_SUSPENDED;
        s.thread_flags = s.thread_flags | THREAD_CREATE_FLAGS_CREATE_SUSPENDED;
        s.init_flags = SUSPENDED_INIT_FLAGS;
        s.additional_file_access = SUSPENDED_FILE_ACCESS;
        s
    }

    /// With the process `pid` as parent.
    pub fn with_parent_pid(self, pid: u32) -> (r: Self)
        ensures
            r.wf() == self.wf(),
            r.fresh() == self.fresh(),
            r@ == (CreationView { attributes: AttributesView { parent_pid: Some(pid), ..self@.attributes }, ..self@ }),
    {
        let mut s = self;
        s.attributes.set_parent_pid(pid);
        s
    }

    /// The image to run, for both the parameter block and the attribute
    /// list.
    pub fn with_absolute_image_path(self, path: &'a str) -> (r: Self)
        ensures
            r.wf() == self.wf(),
            r.fresh() == self.fresh(),
            r@ == (CreationView {
                params: ParamsView { image_path: path@, ..self@.params },
                attributes: AttributesView { image_path: Some(path@), ..self@.attributes },
                ..self@
            }),
    {
        let mut s = self;
        s.process_params.set_image_path(path);
        s.attributes.set_image_path(path);
        s
    }

    pub fn with_current_directory(self, current_dir: &'a str) -> (r: Self)
        ensures
            r.wf() == self.wf(),
            r.fresh() == self.fresh(),
            r@ == (CreationView {
                params: ParamsView { current_directory: Some(current_dir@), ..self@.params },
                ..self@
            }),
    {
        let mut s = self;
        s.process_params.set_current_directory(current_dir);
        s
    }

    /// In the process group `id`, which the caller reads from its own
    /// process.
    pub fn with_process_group(self, id: u32) -> (r: Self)
        ensures
            r.wf() == self.wf(),
            r.fresh() == self.fresh(),
            r@ == (CreationView { params: ParamsView { process_group: id, ..self@.params }, ..self@ }),
    {
        let mut s = self;
        s.process_params.set_process_group(id);
        s
    }

    /// With `environment`, which the caller builds, for instance from its
    /// own process's block.
    pub fn with_environment(self, environment: EnvironmentBuilder<ENV_SIZE>) -> (r: Self)
        requires
            environment.wf(),
        ensures
            self.wf() ==> r.wf(),
            r.fresh() == self.fresh(),
            r@ == (CreationView {
                environment: environment.bytes(),
                environment_len: environment.used(),
                ..self@
            }),
    {
        let mut s = self;
        s.environment = environment;
        s
    }

    pub fn with_command_args(self, args: &'a str) -> (r: Self)
        ensures
            r.wf() == self.wf(),
            r.fresh() == self.fresh(),
            r@ == (CreationView { params: ParamsView { command_args: Some(args@), ..self@.params }, ..self@ }),
    {
        let mut s = self;
        s.process_params.set_command_args(args);
        s
    }

    /// The access asked for the process and for its first thread.
    pub fn desired_access(&self) -> (r: (u32, u32))
        ensures
            r == (self@.process_desired_access, self@.thread_desired_access),
    {
        (self.process_desired_access, self.thread_desired_access)
    }

    /// The creation flags of the process and of its first thread.
    pub fn create_flags(&self) -> (r: (u32, u32))
        ensures
            r == (self@.process_flags, self@.thread_flags),
    {
        (self.process_flags, self.thread_flags)
    }

    /// The start flags and the extra file access that creation is given.
    pub fn init_state(&self) -> (r: (u32, u32))
        ensures
            r == (self@.init_flags, self@.additional_file_access),
    {
        (self.init_flags, self.additional_file_access)
    }

    /// The environment block, from its start.
    pub fn environment(&self) -> (r: &[u8])
        ensures
            r@ == self@.environment,
    {
        self.environment.as_ptr()
    }

    /// The parameter block.
    pub fn process_params(&self) -> (r: &ProcessParamsBuilder<'a, PROCESS_PARAM_SIZE>)
        ensures
            r@ == self@.params,
    {
        &self.process_params
    }

    /// The attribute list.
    pub fn attributes(&self) -> (r: &AttributesBuilder<'a, ATTR_SIZE>)
        ensures
            r@ == self@.attributes,
    {
        &self.attributes
    }

    /// Lays out the blocks for creation: the parameter block, pointing at
    /// the environment found at `environment_address`, then the attribute
    /// list. The first that fails ends it with its error.
    pub fn prepare(&mut self, environment_address: usize) -> (r: Result<(), ProcessBuilderError>)
        requires
            old(self).wf(),
            old(self).fresh(),
            PROCESS_PARAM_SIZE + 64 <= 0xFFFF,
        ensures
            final(self).wf(),
            ({
                let p1 = ParamsView {
                    environment: environment_address,
                    environment_size: old(self)@.environment_len as usize,
                    ..old(self)@.params
                };
                let (p2, ok) = crate::process::params::build_step(p1, PROCESS_PARAM_SIZE as int);
                let (a2, ra) = crate::process::attributes::build_step(old(self)@.attributes, ATTR_SIZE as int);
                if !ok {
                    &&& r == Err::<(), ProcessBuilderError>(ProcessBuilderError::BufferOverflow)
                    &&& final(self)@ == (CreationView { params: p2, ..old(self)@ })
                } else {
                    &&& r == ra
                    &&& final(self)@ == (CreationView { params: p2, attributes: a2, ..old(self)@ })
                }
            }),
    {
        let len = self.environment.len();
        self.process_params.set_environment(environment_address, len);
        match self.process_params.build() {
            Ok(()) => {},
            Err(e) => return Err(e),
        }
        self.attributes.build()
    }

    /// Adds the parent process that opening it gave to the attribute list.
    pub fn add_parent_process(&mut self, status: i32, handle: usize) -> (r: Result<(), ProcessBuilderError>)
        requires
            old(self).wf(),
        ensures
            final(self).wf(),
            final(self)@ == (CreationView { attributes: final(self)@.attributes, ..old(self)@ }),
            status < 0 ==> r == Err::<(), ProcessBuilderError>(ProcessBuilderError::NtOpenProcessFailed(status))
                && final(self)@.attributes == old(self)@.attributes,
            status >= 0 ==> ({
                let (v, ok) = crate::process::attributes::entry_step(
                    old(self)@.attributes,
                    crate::process::attributes::PsAttribute {
                        attribute: crate::process::attributes::PS_ATTRIBUTE_PARENT_PROCESS,
                        size: crate::process::attributes::HANDLE_SIZE,
                        value: handle,
                    },
                    ATTR_SIZE as int,
                );
                &&& final(self)@.attributes == v
                &&& (r is Ok <==> ok)
                &&& (r is Err ==> r == Err::<(), ProcessBuilderError>(ProcessBuilderError::BufferOverflow))
            }),
    {
        self.attributes.add_parent_process(status, handle)
    }
}

} // verus!
