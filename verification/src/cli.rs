//! Decisions the command line makes: which compressor, where the output
//! goes, whether the dashboard runs, and the exit status of a failure.
use crate::compressor::{AnyCompressor, Bzip2Compressor, Compressor, GzipCompressor, XzCompressor, ZipError};
use crate::pipeline::{InputSource, OutputDestination};
use crate::tui::{initial_split_view, initial_stream_view, TuiState};
use vstd::prelude::*;
use vstd::string::*;

verus! {

/// Whether the dashboard runs: never when it was turned off, always when it
/// is forced, and otherwise when it was asked for and stderr is a terminal.
pub open spec fn runs_dashboard(
    tui_requested: bool,
    no_tui_requested: bool,
    force_tui: bool,
    stderr_is_tty: bool,
) -> bool {
    !no_tui_requested && (force_tui || (tui_requested && stderr_is_tty))
}

pub fn should_run_tui(
    tui_requested: bool,
    no_tui_requested: bool,
    force_tui: bool,
    stderr_is_tty: bool,
) -> (r: bool)
    ensures
        r == runs_dashboard(tui_requested, no_tui_requested, force_tui, stderr_is_tty),
{
    if no_tui_requested {
        return false;
    }
    force_tui || (tui_requested && stderr_is_tty)
}

/// Turning the dashboard off wins over everything: whatever was asked for,
/// forced or detected, the dashboard does not run. When it was not turned
/// off, forcing it runs it, and otherwise it runs exactly when it was asked
/// for and stderr is a terminal.
pub proof fn lemma_no_tui_wins(
    tui_requested: bool,
    no_tui_requested: bool,
    force_tui: bool,
    stderr_is_tty: bool,
)
    ensures
        no_tui_requested ==> !runs_dashboard(
            tui_requested,
            no_tui_requested,
            force_tui,
            stderr_is_tty,
        ),
        !no_tui_requested && force_tui ==> runs_dashboard(
            tui_requested,
            no_tui_requested,
            force_tui,
            stderr_is_tty,
        ),
        !no_tui_requested && !force_tui ==> (runs_dashboard(
            tui_requested,
            no_tui_requested,
            force_tui,
            stderr_is_tty,
        ) <==> tui_requested && stderr_is_tty),
{
}

/// The compressor an algorithm name selects, if any.
pub open spec fn algorithm_choice(name: Seq<char>) -> Option<crate::compressor::Format> {
    if name == "gz"@ {
        Some(crate::compressor::Format::Gzip)
    } else if name == "bz2"@ {
        Some(crate::compressor::Format::Bzip2)
    } else if name == "xz"@ {
        Some(crate::compressor::Format::Xz)
    } else {
        None
    }
}

/// The diagnostic for an algorithm name that selects nothing.
pub open spec fn unknown_algorithm_text(name: Seq<char>) -> Seq<char> {
    "Unknown algorithm '"@ + name + "'. Supported: xz, bz2, gz"@
}

/// Decides whether two strings hold the same characters.
pub fn same_text(a: &str, b: &str) -> (r: bool)
    ensures
        r == (a@ == b@),
{
    let x = String::from_str(a);
    let y = String::from_str(b);
    x == y
}

/// The compressor named by `algorithm` ("gz", "bz2" or "xz"), configured
/// with `level`, or the diagnostic for an unknown name.
pub fn resolve_compressor(algorithm: &str, level: u32) -> (r: Result<AnyCompressor, String>)
    ensures
        match algorithm_choice(algorithm@) {
            Some(format) => r matches Ok(c) && c.spec_format() == format && c.level_of() == level,
            None => r matches Err(m) && m@ == unknown_algorithm_text(algorithm@),
        },
{
    if same_text(algorithm, "gz") {
        Ok(AnyCompressor::Gzip(GzipCompressor { level }))
    } else if same_text(algorithm, "bz2") {
        Ok(AnyCompressor::Bzip2(Bzip2Compressor { level }))
    } else if same_text(algorithm, "xz") {
        Ok(AnyCompressor::Xz(XzCompressor { level }))
    } else {
        let mut message = String::from_str("Unknown algorithm '");
        message.append(algorithm);
        message.append("'. Supported: xz, bz2, gz");
        Err(message)
    }
}

/// The exit status of a failed run: 3 when verification failed, 2 otherwise.
pub fn exit_code_for_error(error: &ZipError) -> (r: i32)
    ensures
        r == (if error is Verification { 3i32 } else { 2i32 }),
{
    match error {
        ZipError::Verification(_) => 3,
        _ => 2,
    }
}

/// The file extension of the output written with `algorithm`: "gz" and
/// "bz2" for themselves, "xz" for anything else.
pub open spec fn extension_text(algorithm: Seq<char>) -> Seq<char> {
    if algorithm == "gz"@ {
        "gz"@
    } else if algorithm == "bz2"@ {
        "bz2"@
    } else {
        "xz"@
    }
}

/// The output is named after the compressor that writes it: every name that
/// selects a compressor is also the extension its output gets, and a name
/// that selects none gets the xz extension.
pub proof fn lemma_extension_names_the_compressor(name: Seq<char>)
    ensures
        algorithm_choice(name) is Some ==> extension_text(name) == name,
        algorithm_choice(name) == Some(crate::compressor::Format::Gzip) ==> extension_text(name)
            == "gz"@,
        algorithm_choice(name) == Some(crate::compressor::Format::Bzip2) ==> extension_text(name)
            == "bz2"@,
        algorithm_choice(name) == Some(crate::compressor::Format::Xz) ==> extension_text(name)
            == "xz"@,
        algorithm_choice(name) is None ==> extension_text(name) == "xz"@,
{
}

pub fn output_extension(algorithm: &str) -> (r: &'static str)
    ensures
        r@ == extension_text(algorithm@),
{
    if same_text(algorithm, "gz") {
        "gz"
    } else if same_text(algorithm, "bz2") {
        "bz2"
    } else {
        "xz"
    }
}

/// The extension of `path` as `std::path::Path::extension` finds it.
pub uninterp spec fn path_extension_of(path: Seq<char>) -> Option<Seq<char>>;

/// `path` after `std::path::PathBuf::set_extension(extension)`.
pub uninterp spec fn path_with_extension(path: Seq<char>, extension: Seq<char>) -> Seq<char>;

/// The extension `std::path::Path::extension` finds in `path`. It is taken
/// from the file name, so it holds no '/'.
#[verifier::external_body]
fn path_extension(path: &str) -> (r: Option<String>)
    ensures
        match r {
            Some(e) => path_extension_of(path@) == Some(e@) && !e@.contains('/'),
            None => path_extension_of(path@) is None,
        },
{
    std::path::Path::new(path).extension().map(|e| e.to_string_lossy().into_owned())
}

/// `path` with its extension set by `std::path::PathBuf::set_extension`,
/// which panics on an extension holding a path separator ('/' on the Unix
/// systems this program runs on).
#[verifier::external_body]
fn path_set_extension(path: &str, extension: &str) -> (r: String)
    requires
        !extension@.contains('/'),
    ensures
        r@ == path_with_extension(path@, extension@),
{
    let mut buffer = std::path::PathBuf::from(path);
    buffer.set_extension(extension);
    buffer.to_string_lossy().into_owned()
}

/// The extension the output gets: the input's extension followed by the
/// algorithm's, or the algorithm's alone.
pub open spec fn output_extension_of(input: Seq<char>, algorithm: Seq<char>) -> Seq<char> {
    match path_extension_of(input) {
        Some(existing) => existing + "."@ + extension_text(algorithm),
        None => extension_text(algorithm),
    }
}

/// Where the output of compressing `input` goes when no output was named:
/// the input path with the algorithm's extension added after its own.
pub fn default_output_path(input: &str, algorithm: &str) -> (r: String)
    ensures
        r@ == path_with_extension(input@, output_extension_of(input@, algorithm@)),
{
    let extension = output_extension(algorithm);
    proof {
        reveal_strlit("gz");
        reveal_strlit("bz2");
        reveal_strlit("xz");
        reveal_strlit(".");
        assert(!extension@.contains('/'));
    }
    let new_extension = match path_extension(input) {
        Some(existing) => {
            let mut e = existing;
            e.append(".");
            e.append(extension);
            proof {
                let joined = existing@ + "."@ + extension@;
                assert(e@ == joined);
                assert forall|i: int| 0 <= i < joined.len() implies joined[i] != '/' by {
                    if i < existing@.len() {
                        assert(joined[i] == existing@[i]);
                    } else if i == existing@.len() {
                    } else {
                        assert(joined[i] == extension@[i - existing@.len() - 1]);
                    }
                }
            }
            e
        },
        None => String::from_str(extension),
    };
    path_set_extension(input, new_extension.as_str())
}

/// The characters of an optional argument.
pub open spec fn text_of(s: Option<&str>) -> Option<Seq<char>> {
    match s {
        Some(t) => Some(t@),
        None => None,
    }
}

/// The input file named on the command line: none when it was left out or
/// given as "-" (standard input).
pub open spec fn named_input(input_file: Option<Seq<char>>) -> Option<Seq<char>> {
    match input_file {
        Some(p) => if p == "-"@ {
            None
        } else {
            Some(p)
        },
        None => None,
    }
}

/// What a run reads, where it writes, how many threads it asks for (0 for
/// one per core) and whether the dashboard runs.
pub struct RunPlan {
    pub input_source: InputSource,
    pub output_destination: OutputDestination,
    pub input_path: Option<String>,
    pub threads: usize,
    pub run_tui: bool,
}

/// The output of a run: standard output when it was asked for; else the
/// named output file; else a file next to the named input; else standard
/// output.
pub open spec fn planned_output(
    input_file: Option<Seq<char>>,
    output: Option<Seq<char>>,
    to_stdout: bool,
    algorithm: Seq<char>,
) -> Option<Seq<char>> {
    if to_stdout {
        None
    } else {
        match output {
            Some(o) => Some(o),
            None => match named_input(input_file) {
                Some(i) => Some(path_with_extension(i, output_extension_of(i, algorithm))),
                None => None,
            },
        }
    }
}

/// Where a run reads and writes: "-" or no input means standard input, any
/// other input names a file; `--stdout` always writes to standard output; a
/// named output wins over the default; without one, a named input gets a
/// file next to it and standard input goes to standard output. Output
/// goes to a file only when one was named or an input file was named.
pub proof fn lemma_run_plan_ends(
    input_file: Option<Seq<char>>,
    output: Option<Seq<char>>,
    to_stdout: bool,
    algorithm: Seq<char>,
)
    ensures
        named_input(Some("-"@)) is None,
        named_input(None) is None,
        input_file is Some && input_file->0 != "-"@ ==> named_input(input_file) == input_file,
        to_stdout ==> planned_output(input_file, output, to_stdout, algorithm) is None,
        !to_stdout && output is Some ==> planned_output(input_file, output, to_stdout, algorithm)
            == output,
        !to_stdout && output is None && named_input(input_file) is None ==> planned_output(
            input_file,
            output,
            to_stdout,
            algorithm,
        ) is None,
        !to_stdout && output is None && named_input(input_file) is Some ==> planned_output(
            input_file,
            output,
            to_stdout,
            algorithm,
        ) is Some,
        planned_output(input_file, output, to_stdout, algorithm) is Some ==> !to_stdout && (
        output is Some || named_input(input_file) is Some),
{
}

fn option_text(s: Option<&str>) -> (r: Option<String>)
    ensures
        match s {
            Some(t) => r matches Some(u) && u@ == t@,
            None => r is None,
        },
{
    match s {
        Some(t) => Some(String::from_str(t)),
        None => None,
    }
}

/// Decides what a run reads and writes from its command line, and whether
/// the dashboard runs.
pub fn resolve_run_plan(
    input_file: Option<&str>,
    output: Option<&str>,
    to_stdout: bool,
    algorithm: &str,
    threads: Option<usize>,
    tui_requested: bool,
    no_tui_requested: bool,
    force_tui: bool,
    stderr_is_tty: bool,
) -> (r: RunPlan)
    ensures
        match named_input(text_of(input_file)) {
            Some(i) => (r.input_source matches InputSource::File(p) && p@ == i) && (r.input_path
                matches Some(q) && q@ == i),
            None => r.input_source is Stdin && r.input_path is None,
        },
        match planned_output(text_of(input_file), text_of(output), to_stdout, algorithm@) {
            Some(o) => r.output_destination matches OutputDestination::File(p) && p@ == o,
            None => r.output_destination is Stdout,
        },
        r.threads == match threads {
            Some(t) => t,
            None => 0,
        },
        r.run_tui == runs_dashboard(tui_requested, no_tui_requested, force_tui, stderr_is_tty),
{
    let named: Option<&str> = match input_file {
        Some(p) => if same_text(p, "-") {
            None
        } else {
            Some(p)
        },
        None => None,
    };
    let input_path = option_text(named);
    let input_source = match named {
        Some(p) => InputSource::File(String::from_str(p)),
        None => InputSource::Stdin,
    };
    let output_destination = if to_stdout {
        OutputDestination::Stdout
    } else {
        match output {
            Some(o) => OutputDestination::File(String::from_str(o)),
            None => match named {
                Some(i) => OutputDestination::File(default_output_path(i, algorithm)),
                None => OutputDestination::Stdout,
            },
        }
    };
    RunPlan {
        input_source,
        output_destination,
        input_path,
        threads: match threads {
            Some(t) => t,
            None => 0,
        },
        run_tui: should_run_tui(tui_requested, no_tui_requested, force_tui, stderr_is_tty),
    }
}

/// The dashboard a run opens with at `now`: a split dashboard with one
/// slice per worker over the input file's `file_size` bytes, or a stream
/// dashboard with `workers` workers and a queue of twice as many chunks.
pub fn initial_tui_state(plan: &RunPlan, workers: usize, file_size: usize, level: u32, now: u64) -> (r: TuiState)
    requires
        plan.input_path is None ==> workers * 2 <= usize::MAX,
    ensures
        plan.input_path is Some ==> r@ == initial_split_view(workers, file_size, level, now),
        plan.input_path is None ==> r@ == initial_stream_view((workers * 2) as usize, 0, workers, level, now),
{
    match plan.input_path {
        Some(_) => TuiState::new_split(workers, file_size, level, now),
        None => TuiState::new_stream(workers * 2, 0, workers, level, now),
    }
}

/// The file a verification run checks: the named input, or an error when
/// the input is standard input.
pub fn verification_target(input_file: Option<&str>) -> (r: Result<String, ZipError>)
    ensures
        match named_input(text_of(input_file)) {
            Some(i) => r matches Ok(p) && p@ == i,
            None => r matches Err(ZipError::Verification(m)) && m@
                == "Cannot verify stream from standard input"@,
        },
{
    match input_file {
        Some(p) => if same_text(p, "-") {
            Err(ZipError::Verification(String::from_str("Cannot verify stream from standard input")))
        } else {
            Ok(String::from_str(p))
        },
        None => Err(ZipError::Verification(String::from_str("Cannot verify stream from standard input"))),
    }
}

/// How many messages the log keeps.
pub const LOG_CAPACITY: usize = 100;

/// The last messages of a run, oldest first, at most `LOG_CAPACITY` of them.
pub struct LogBuffer {
    messages: Vec<String>,
}

impl View for LogBuffer {
    type V = Seq<Seq<char>>;

    closed spec fn view(&self) -> Seq<Seq<char>> {
        self.messages@.map_values(|m: String| m@)
    }
}

/// The log after `message` arrives: it is appended, and the oldest message
/// goes when there are more than `LOG_CAPACITY`.
pub open spec fn log_after(log: Seq<Seq<char>>, message: Seq<char>) -> Seq<Seq<char>> {
    let grown = log.push(message);
    if grown.len() > LOG_CAPACITY {
        grown.drop_first()
    } else {
        grown
    }
}

/// The log never holds more than `LOG_CAPACITY` messages, its newest
/// message is the one that arrived last, and the others keep their order.
pub proof fn lemma_log_keeps_newest(log: Seq<Seq<char>>, message: Seq<char>)
    requires
        log.len() <= LOG_CAPACITY,
    ensures
        log_after(log, message).len() <= LOG_CAPACITY,
        log_after(log, message).last() == message,
        log_after(log, message).drop_last() == (if log.len() < LOG_CAPACITY {
            log
        } else {
            log.drop_first()
        }),
{
    let grown = log.push(message);
    assert(grown.drop_last() =~= log);
    if grown.len() > LOG_CAPACITY {
        assert(grown.drop_first().drop_last() =~= log.drop_first());
    }
}

impl LogBuffer {
    pub fn new() -> (r: Self)
        ensures
            r@ == Seq::<Seq<char>>::empty(),
            r@.len() <= LOG_CAPACITY,
    {
        let r = LogBuffer { messages: Vec::new() };
        assert(r@ =~= Seq::<Seq<char>>::empty());
        r
    }

    /// Records a message.
    pub fn push(&mut self, message: String)
        ensures
            final(self)@ == log_after(old(self)@, message@),
    {
        let ghost before = self.messages@;
        self.messages.push(message);
        assert(self.messages@.map_values(|m: String| m@) =~= before.map_values(|m: String| m@).push(
            message@,
        ));
        if self.messages.len() > LOG_CAPACITY {
            let ghost grown = self.messages@;
            self.messages.remove(0);
            assert(self.messages@.map_values(|m: String| m@) =~= grown.map_values(
                |m: String| m@,
            ).drop_first());
        }
    }

    pub fn len(&self) -> (r: usize)
        ensures
            r == self@.len(),
    {
        self.messages.len()
    }

    /// The message at `index`, oldest first.
    pub fn get(&self, index: usize) -> (r: &String)
        requires
            index < self@.len(),
        ensures
            r@ == self@[index as int],
    {
        &self.messages[index]
    }
}

} // verus!
