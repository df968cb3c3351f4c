//! What is checked of a machine before a runtime is installed on it.
//!
//! The checks are a machine: it says what to ask next, and is told the answer.
use vstd::prelude::*;

use crate::failure::Failure;
use crate::text::chars::text_eq;
use crate::text::compose::opt_text;
use crate::wsl::catalog::PythonRuntimeVariant;
use crate::wsl::checks::{
    cuda_refusal, release_refusal, validate_rocm_distro, validate_wsl_cuda_gpu,
};
use crate::wsl::detection::{answer_of, read_answer};
use crate::wsl::output::CommandOutput;
use crate::wsl::versions::{
    accepted_drivers_are_recent, driver_refusal, older, read_nvidia_driver, reported_driver,
    require_minimum_driver, version_of,
};

verus! {

/// What is asked next, or how the checks ended.
#[derive(Debug)]
pub enum Preflight {
    /// Ask Windows for the NVIDIA driver.
    QueryDriver,
    /// Ask the distribution for NVIDIA devices.
    QueryDevices { driver: String },
    /// Ask the distribution for the release of Linux.
    QueryRelease,
    /// A runtime can be installed. The driver is known where there is one to know.
    Fit(Option<String>),
    Failed(Failure),
}

/// What the checks say.
pub enum PreflightView {
    QueryDriver,
    QueryDevices { driver: Seq<char> },
    QueryRelease,
    Fit(Option<Seq<char>>),
    Failed(Seq<char>),
}

impl View for Preflight {
    type V = PreflightView;

    open spec fn view(&self) -> PreflightView {
        match self {
            Preflight::QueryDriver => PreflightView::QueryDriver,
            Preflight::QueryDevices { driver } => PreflightView::QueryDevices { driver: driver@ },
            Preflight::QueryRelease => PreflightView::QueryRelease,
            Preflight::Fit(driver) => PreflightView::Fit(opt_text(*driver)),
            Preflight::Failed(e) => PreflightView::Failed(e@),
        }
    }
}

/// What is asked first.
pub open spec fn first_check(accelerator: Seq<char>) -> PreflightView {
    if accelerator == "cuda"@ {
        PreflightView::QueryDriver
    } else {
        PreflightView::QueryRelease
    }
}

/// What follows from the driver that Windows has.
pub open spec fn driver_checked(
    backend: Seq<char>,
    minimum: Option<Seq<char>>,
    output: CommandOutput,
) -> PreflightView {
    match reported_driver(output) {
        Err(message) => PreflightView::Failed(message),
        Ok(driver) => match minimum {
            None => PreflightView::Failed(backend + " has no minimum NVIDIA driver"@),
            Some(least) => match driver_refusal(driver, least) {
                Some(message) => PreflightView::Failed(message),
                None => PreflightView::QueryDevices { driver },
            },
        },
    }
}

/// What follows from an answer. A command that could not be run fails the checks.
pub open spec fn checked_further(
    v: PreflightView,
    backend: Seq<char>,
    minimum: Option<Seq<char>>,
    distribution: Seq<char>,
    answer: Result<CommandOutput, Failure>,
) -> PreflightView {
    match v {
        PreflightView::Fit(driver) => v,
        PreflightView::Failed(message) => v,
        _ => match answer {
            Err(e) => PreflightView::Failed(e@),
            Ok(output) => match v {
                PreflightView::QueryDriver => driver_checked(backend, minimum, output),
                PreflightView::QueryDevices { driver } => match cuda_refusal(output, distribution) {
                    Some(message) => PreflightView::Failed(message),
                    None => PreflightView::Fit(Some(driver)),
                },
                _ => match answer_of(output) {
                    Err(message) => PreflightView::Failed(message),
                    Ok(release) => match release_refusal(release) {
                        Some(message) => PreflightView::Failed(message),
                        None => PreflightView::Fit(None),
                    },
                },
            },
        },
    }
}

fn check_driver(backend: &str, minimum: &Option<String>, output: &CommandOutput) -> (r: Preflight)
    ensures
        r@ == driver_checked(backend@, opt_text(*minimum), *output),
{
    let driver = match read_nvidia_driver(output) {
        Ok(driver) => driver,
        Err(e) => {
            return Preflight::Failed(e);
        },
    };
    match minimum {
        None => Preflight::Failed(Failure::about(backend, " has no minimum NVIDIA driver")),
        Some(least) => match require_minimum_driver(driver.as_str(), least.as_str()) {
            Ok(_) => Preflight::QueryDevices { driver },
            Err(e) => Preflight::Failed(e),
        },
    }
}

impl Preflight {
    /// The checks for a variant.
    pub fn new(variant: &PythonRuntimeVariant) -> (r: Preflight)
        ensures
            r@ == first_check(variant.accelerator@),
    {
        if text_eq(variant.accelerator.as_str(), "cuda") {
            Preflight::QueryDriver
        } else {
            Preflight::QueryRelease
        }
    }

    /// Tells the answer, or why there is none.
    pub fn step(
        self,
        backend: &str,
        variant: &PythonRuntimeVariant,
        distribution: &str,
        answer: Result<CommandOutput, Failure>,
    ) -> (r: Preflight)
        ensures
            r@ == checked_further(
                self@,
                backend@,
                opt_text(variant.minimum_driver),
                distribution@,
                answer,
            ),
    {
        match self {
            Preflight::Fit(driver) => {
                return Preflight::Fit(driver);
            },
            Preflight::Failed(e) => {
                return Preflight::Failed(e);
            },
            _ => {},
        }
        let output = match answer {
            Ok(output) => output,
            Err(e) => {
                return Preflight::Failed(e);
            },
        };
        match self {
            Preflight::QueryDriver => check_driver(backend, &variant.minimum_driver, &output),
            Preflight::QueryDevices { driver } => {
                match validate_wsl_cuda_gpu(&output, distribution) {
                    Ok(_) => Preflight::Fit(Some(driver)),
                    Err(e) => Preflight::Failed(e),
                }
            },
            _ => match read_answer(&output) {
                Err(e) => Preflight::Failed(e),
                Ok(release) => match validate_rocm_distro(release.as_str()) {
                    Ok(_) => Preflight::Fit(None),
                    Err(e) => Preflight::Failed(e),
                },
            },
        }
    }
}

/// What holds of all checks: a driver that is known is no older than the one that the
/// variant asks for.
pub open spec fn checks_hold(v: PreflightView, minimum: Option<Seq<char>>) -> bool {
    let recent = |driver: Seq<char>|
        minimum is Some && version_of(driver) is Some && version_of(minimum->0) is Some && !older(
            version_of(driver)->0,
            version_of(minimum->0)->0,
        );
    match v {
        PreflightView::QueryDevices { driver } => recent(driver),
        PreflightView::Fit(Some(driver)) => recent(driver),
        _ => true,
    }
}

/// A machine with too old a driver never counts as fit.
pub proof fn fit_machines_have_recent_drivers(
    v: PreflightView,
    backend: Seq<char>,
    minimum: Option<Seq<char>>,
    distribution: Seq<char>,
    answer: Result<CommandOutput, Failure>,
)
    requires
        checks_hold(v, minimum),
    ensures
        checks_hold(checked_further(v, backend, minimum, distribution, answer), minimum),
{
    if v is QueryDriver && answer is Ok {
        let driver = reported_driver(answer->Ok_0);
        if driver is Ok && minimum is Some && driver_refusal(driver->Ok_0, minimum->0) is None {
            accepted_drivers_are_recent(driver->Ok_0, minimum->0);
        }
    }
}

} // verus!
