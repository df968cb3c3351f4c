//! Finding the distribution that holds the runtimes.
use vstd::prelude::*;

use crate::failure::Failure;
use crate::runtime::plan::{debug_quoted, debug_text};
use crate::text::chars::text_eq;
use crate::text::compose::{no_texts, opt_text, texts};
use crate::text::pieces::lines_of;
use crate::text::search::{has_prefix, starts_with};
use crate::text::trim::{trim, trimmed};
use crate::wsl::commands::{full_arguments, no_args, wsl_arguments, Args};
use crate::wsl::distros::{
    automount_root_from_c_path, choose_distro, chosen_distro, eligible, listed_names, mount_root,
    names_among,
};
use crate::wsl::output::{decode_output, decoded, failure_words, require_success, CommandOutput};

verus! {

/// The distribution that holds the runtimes.
#[derive(Debug)]
pub struct WslContext {
    pub distribution: String,
    pub home: String,
    pub automount_root: String,
}

/// How far the search for the distribution has come: what is asked next, or how it ended.
#[derive(Debug)]
pub enum WslDetection {
    /// Which distributions there are.
    ListNames,
    /// Which of them run under the second version.
    ListVersions { names: Vec<String> },
    /// The home directory.
    AskHome { distribution: String },
    /// Where the first drive of Windows appears.
    AskDrive { distribution: String, home: String },
    /// The kind of machine.
    AskMachine { distribution: String, home: String, automount_root: String },
    Found(WslContext),
    Failed(Failure),
}

/// What the search says.
pub enum DetectionView {
    ListNames,
    ListVersions { names: Seq<Seq<char>> },
    AskHome { distribution: Seq<char> },
    AskDrive { distribution: Seq<char>, home: Seq<char> },
    AskMachine { distribution: Seq<char>, home: Seq<char>, automount_root: Seq<char> },
    Found { distribution: Seq<char>, home: Seq<char>, automount_root: Seq<char> },
    Failed(Seq<char>),
}

impl View for WslDetection {
    type V = DetectionView;

    open spec fn view(&self) -> DetectionView {
        match self {
            WslDetection::ListNames => DetectionView::ListNames,
            WslDetection::ListVersions { names } => {
                DetectionView::ListVersions { names: texts(names@) }
            },
            WslDetection::AskHome { distribution } => {
                DetectionView::AskHome { distribution: distribution@ }
            },
            WslDetection::AskDrive { distribution, home } => {
                DetectionView::AskDrive { distribution: distribution@, home: home@ }
            },
            WslDetection::AskMachine { distribution, home, automount_root } => {
                DetectionView::AskMachine {
                    distribution: distribution@,
                    home: home@,
                    automount_root: automount_root@,
                }
            },
            WslDetection::Found(c) => DetectionView::Found {
                distribution: c.distribution@,
                home: c.home@,
                automount_root: c.automount_root@,
            },
            WslDetection::Failed(e) => DetectionView::Failed(e@),
        }
    }
}

/// The arguments of the question that is asked next.
pub open spec fn question(v: DetectionView) -> Seq<Seq<char>> {
    match v {
        DetectionView::ListNames => no_args().push("--list"@).push("--quiet"@),
        DetectionView::ListVersions { names } => no_args().push("--list"@).push("--verbose"@),
        DetectionView::AskHome { distribution } => full_arguments(
            distribution,
            None,
            no_args().push("sh"@).push("-c"@).push("printf %s \"$HOME\""@),
        ),
        DetectionView::AskDrive { distribution, home } => full_arguments(
            distribution,
            None,
            no_args().push("wslpath"@).push("-a"@).push("-u"@).push("C:\\"@),
        ),
        DetectionView::AskMachine { distribution, home, automount_root } => full_arguments(
            distribution,
            None,
            no_args().push("uname"@).push("-m"@),
        ),
        _ => no_args(),
    }
}

/// What a distribution answers.
pub open spec fn answer_of(output: CommandOutput) -> Result<Seq<char>, Seq<char>> {
    if output.success {
        Ok(trimmed(decoded(output.stdout@)))
    } else {
        Err(failure_words(output, "query WSL2 distribution"@))
    }
}

/// What a distribution answers.
pub fn read_answer(output: &CommandOutput) -> (r: Result<String, Failure>)
    ensures
        crate::failure::text_result(r) == answer_of(*output),
{
    match require_success(output, "query WSL2 distribution") {
        Ok(_) => Ok(trim(decode_output(&output.stdout).as_str())),
        Err(e) => Err(e),
    }
}

/// How far the search has come after a command has ended.
pub open spec fn detection_after(
    v: DetectionView,
    requested: Option<Seq<char>>,
    output: CommandOutput,
) -> DetectionView {
    match v {
        DetectionView::ListNames => if output.success {
            DetectionView::ListVersions { names: names_among(lines_of(decoded(output.stdout@))) }
        } else {
            DetectionView::Failed(
                "WSL is unavailable. Enable WSL2 and install Ubuntu before installing a managed vLLM backend: "@
                    + trimmed(decoded(output.stderr@)),
            )
        },
        DetectionView::ListVersions { names } => match chosen_distro(
            requested,
            names,
            decoded(output.stdout@),
        ) {
            Ok(distribution) => DetectionView::AskHome { distribution },
            Err(reason) => DetectionView::Failed(reason),
        },
        DetectionView::AskHome { distribution } => match answer_of(output) {
            Ok(home) => if starts_with(home, "/"@) {
                DetectionView::AskDrive { distribution, home }
            } else {
                DetectionView::Failed(
                    "WSL distribution "@ + debug_text(distribution)
                        + " returned an invalid HOME path"@,
                )
            },
            Err(reason) => DetectionView::Failed(reason),
        },
        DetectionView::AskDrive { distribution, home } => match answer_of(output) {
            Ok(c_root) => match mount_root(c_root) {
                Some(automount_root) => DetectionView::AskMachine {
                    distribution,
                    home,
                    automount_root,
                },
                None => DetectionView::Failed(
                    "WSL distribution returned an invalid C: automount path"@,
                ),
            },
            Err(reason) => DetectionView::Failed(reason),
        },
        DetectionView::AskMachine { distribution, home, automount_root } => match answer_of(
            output,
        ) {
            Ok(machine) => if machine == "x86_64"@ {
                DetectionView::Found { distribution, home, automount_root }
            } else {
                DetectionView::Failed(
                    "managed vLLM requires an x86_64 WSL2 distribution, found "@ + machine,
                )
            },
            Err(reason) => DetectionView::Failed(reason),
        },
        _ => v,
    }
}

impl WslDetection {
    /// The arguments of the question that is asked next; none where the search has ended.
    pub fn arguments(&self) -> (r: Vec<String>)
        ensures
            texts(r@) == question(self@),
    {
        match self {
            WslDetection::ListNames => Args::new().with("--list").with("--quiet").done(),
            WslDetection::ListVersions { names } => {
                Args::new().with("--list").with("--verbose").done()
            },
            WslDetection::AskHome { distribution } => {
                let args = Args::new().with("sh").with("-c").with("printf %s \"$HOME\"").done();
                wsl_arguments(distribution.as_str(), &None, &args)
            },
            WslDetection::AskDrive { distribution, home } => {
                let args = Args::new().with("wslpath").with("-a").with("-u").with("C:\\").done();
                wsl_arguments(distribution.as_str(), &None, &args)
            },
            WslDetection::AskMachine { distribution, home, automount_root } => {
                let args = Args::new().with("uname").with("-m").done();
                wsl_arguments(distribution.as_str(), &None, &args)
            },
            _ => no_texts(),
        }
    }

    /// How far the search has come after a command has ended.
    pub fn step(self, requested: &Option<String>, output: &CommandOutput) -> (r: WslDetection)
        ensures
            r@ == detection_after(self@, opt_text(*requested), *output),
    {
        match self {
            WslDetection::ListNames => {
                if output.success {
                    WslDetection::ListVersions {
                        names: listed_names(decode_output(&output.stdout).as_str()),
                    }
                } else {
                    WslDetection::Failed(
                        Failure::about(
                            "WSL is unavailable. Enable WSL2 and install Ubuntu before installing a managed vLLM backend: ",
                            trim(decode_output(&output.stderr).as_str()).as_str(),
                        ),
                    )
                }
            },
            WslDetection::ListVersions { names } => {
                match choose_distro(requested, &names, decode_output(&output.stdout).as_str()) {
                    Ok(distribution) => WslDetection::AskHome { distribution },
                    Err(e) => WslDetection::Failed(e),
                }
            },
            WslDetection::AskHome { distribution } => match read_answer(output) {
                Ok(home) => if has_prefix(home.as_str(), "/") {
                    WslDetection::AskDrive { distribution, home }
                } else {
                    WslDetection::Failed(
                        Failure::of(
                            "WSL distribution ",
                            debug_quoted(distribution.as_str()).as_str(),
                            " returned an invalid HOME path",
                        ),
                    )
                },
                Err(e) => WslDetection::Failed(e),
            },
            WslDetection::AskDrive { distribution, home } => match read_answer(output) {
                Ok(c_root) => match automount_root_from_c_path(c_root.as_str()) {
                    Some(automount_root) => WslDetection::AskMachine {
                        distribution,
                        home,
                        automount_root,
                    },
                    None => WslDetection::Failed(
                        Failure::new("WSL distribution returned an invalid C: automount path"),
                    ),
                },
                Err(e) => WslDetection::Failed(e),
            },
            WslDetection::AskMachine { distribution, home, automount_root } => {
                match read_answer(output) {
                    Ok(machine) => if text_eq(machine.as_str(), "x86_64") {
                        WslDetection::Found(WslContext { distribution, home, automount_root })
                    } else {
                        WslDetection::Failed(
                            Failure::about(
                                "managed vLLM requires an x86_64 WSL2 distribution, found ",
                                machine.as_str(),
                            ),
                        )
                    },
                    Err(e) => WslDetection::Failed(e),
                }
            },
            WslDetection::Found(c) => WslDetection::Found(c),
            WslDetection::Failed(e) => WslDetection::Failed(e),
        }
    }
}

pub open spec fn absolute(path: Seq<char>) -> bool {
    path.len() > 0 && path[0] == '/'
}

/// What holds of a search at every point: paths that were found are absolute.
pub open spec fn detection_is_sound(v: DetectionView) -> bool {
    match v {
        DetectionView::AskDrive { distribution, home } => absolute(home),
        DetectionView::AskMachine { distribution, home, automount_root } => absolute(home)
            && absolute(automount_root),
        DetectionView::Found { distribution, home, automount_root } => absolute(home) && absolute(
            automount_root,
        ),
        _ => true,
    }
}

/// A search that is sound stays so, from its first question to its end.
pub proof fn detections_stay_sound(
    v: DetectionView,
    requested: Option<Seq<char>>,
    output: CommandOutput,
)
    requires
        detection_is_sound(v),
    ensures
        detection_is_sound(detection_after(v, requested, output)),
{
    reveal_strlit("/");
    if let DetectionView::AskHome { distribution } = v {
        if let Ok(home) = answer_of(output) {
            if starts_with(home, "/"@) {
                assert(home.subrange(0, 1)[0] == "/"@[0]);
            }
        }
    }
    if let DetectionView::AskDrive { distribution, home } = v {
        if let Ok(c_root) = answer_of(output) {
            crate::wsl::distros::mount_roots_are_absolute(c_root);
        }
    }
}

/// The distribution that is asked for its home directory is installed, runs under the
/// second version and belongs to no other application.
pub proof fn only_fit_distros_are_asked(
    names: Seq<Seq<char>>,
    requested: Option<Seq<char>>,
    output: CommandOutput,
)
    ensures
        detection_after(DetectionView::ListVersions { names }, requested, output) matches
            DetectionView::AskHome { distribution } ==> (names.contains(distribution) && eligible(
            distribution,
            decoded(output.stdout@),
        )),
{
    crate::wsl::distros::the_chosen_distro_is_fit(requested, names, decoded(output.stdout@));
}

/// A search that has ended stays as it is.
pub proof fn an_ended_detection_stays(
    v: DetectionView,
    requested: Option<Seq<char>>,
    output: CommandOutput,
)
    requires
        v is Found || v is Failed,
    ensures
        detection_after(v, requested, output) == v,
{
}

} // verus!
