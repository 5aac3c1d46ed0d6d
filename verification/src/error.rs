//! The failures of the acceleration layer.

use vstd::prelude::*;

verus! {

/// Why a GPU workload could not be set up or run.
#[derive(Debug)]
pub enum GPUError {
    /// A failure described by a fixed message.
    Simple(&'static str),
    /// A failure of the device driver, with the driver's own description.
    OpenCL(String),
    /// The device is held by a process of higher priority.
    GPUTaken,
    /// A workload was started before any device had a kernel.
    KernelUninitialized,
    /// The accelerator is switched off.
    GPUDisabled,
}

pub type GPUResult<T> = Result<T, GPUError>;

impl GPUError {
    /// The text that describes the failure.
    pub open spec fn message_text(self) -> Seq<char> {
        match self {
            GPUError::Simple(msg) => "GPUError: "@ + msg@,
            GPUError::OpenCL(cause) => "OpenCL Error: "@ + cause@,
            GPUError::GPUTaken => "GPU taken by a high priority process!"@,
            GPUError::KernelUninitialized => "No kernel is initialized!"@,
            GPUError::GPUDisabled => "GPU accelerator is disabled!"@,
        }
    }

    /// The text that describes the failure.
    pub fn message(&self) -> (text: String)
        ensures
            text@ == self.message_text(),
    {
        match self {
            GPUError::Simple(msg) => {
                let mut text = "GPUError: ".to_owned();
                text.append(msg);
                text
            },
            GPUError::OpenCL(cause) => {
                let mut text = "OpenCL Error: ".to_owned();
                text.append(cause.as_str());
                text
            },
            GPUError::GPUTaken => "GPU taken by a high priority process!".to_owned(),
            GPUError::KernelUninitialized => "No kernel is initialized!".to_owned(),
            GPUError::GPUDisabled => "GPU accelerator is disabled!".to_owned(),
        }
    }

    /// The failure that a worker's panic stands for: the error that the
    /// worker raised, where the payload was one, and an unknown failure
    /// otherwise.
    pub fn from_panic(payload: Option<GPUError>) -> (err: GPUError)
        ensures
            err == match payload {
                Some(raised) => raised,
                None => GPUError::Simple("An unknown GPU error happened!"),
            },
    {
        match payload {
            Some(raised) => raised,
            None => GPUError::Simple("An unknown GPU error happened!"),
        }
    }
}

} // verus!
