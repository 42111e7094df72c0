//! Command-line arguments and their validation.
use vstd::prelude::*;

use crate::numtext::{all_digits, digits_value, is_digit, parse_usize, parsed_usize, unsigned_digits};
use crate::numtext::{decimal_string, lemma_decimal_reads_back};
use crate::text::{concat2, contains, find_char, first_index_of, own, seq_contains, str_eq, strings_view};

verus! {

/// Shell surface layer to render on
#[derive(Debug, Clone, Copy, PartialEq, Eq, Structural)]
pub enum LayerArg {
    Background,
    Bottom,
    Top,
    Overlay,
}

/// Command-line arguments of the player and of the holder.
#[derive(Debug, Clone)]
pub struct Args {
    /// Displays all available outputs and quits
    pub show_outputs: bool,
    /// Be more verbose (-v, -vv for higher verbosity)
    pub verbose: u8,
    /// Forks mpvpaper-rs so you can close the terminal
    pub fork: bool,
    /// Automagically pause mpv when the wallpaper is hidden
    pub auto_pause: bool,
    /// Automagically stop mpv when the wallpaper is hidden
    pub auto_stop: bool,
    /// Slideshow mode: advances to next video every N seconds
    pub slideshow: Option<u32>,
    /// Shell surface layer to render on
    pub layer: LayerArg,
    /// Forward options to mpv (quoted string)
    pub mpv_options: Option<String>,
    /// Do not load the user's mpv configuration file
    pub no_mpv_config: bool,
    /// Hidden: restore video position (used internally by holder)
    pub restore_info: Option<String>,
    /// Output name (DP-2, HDMI-A-1, ALL, *, etc.)
    pub output: Option<String>,
    /// Video file path or URL (optional if --playlist= in mpv_options)
    pub video_path: Option<String>,
}

/// Whether the mpv options name a playlist, which stands in for a video path.
pub open spec fn names_playlist(mpv_options: Option<String>) -> bool {
    match mpv_options {
        Some(o) => seq_contains(o@, "--playlist="@),
        None => false,
    }
}

/// Error text when no output is given.
pub open spec fn missing_output_message() -> Seq<char> {
    "Output name is required (e.g., DP-2, HDMI-A-1, ALL)"@
}

/// Error text when no video path (nor playlist) is given.
pub open spec fn missing_video_message() -> Seq<char> {
    "Video path is required unless --playlist= is specified"@
}

impl Args {
    /// Validate arguments after parsing
    ///
    /// Listing outputs (`-d`) needs nothing else; otherwise an output is
    /// required, and a video path unless the mpv options give `--playlist=`.
    pub fn validate(&self) -> (r: std::result::Result<(), String>)
        ensures
            !self.show_outputs && self.output is None ==> (r matches Err(m)
                && m@ == missing_output_message()),
            !self.show_outputs && self.output is Some && self.video_path is None
                && !names_playlist(self.mpv_options) ==> (r matches Err(m)
                && m@ == missing_video_message()),
            (self.show_outputs || (self.output is Some && (self.video_path is Some
                || names_playlist(self.mpv_options)))) ==> r is Ok,
    {
        if !self.show_outputs && self.output.is_none() {
            return Err(own("Output name is required (e.g., DP-2, HDMI-A-1, ALL)"));
        }
        if !self.show_outputs && self.video_path.is_none() {
            let has_playlist = match &self.mpv_options {
                Some(o) => contains(o.as_str(), "--playlist="),
                None => false,
            };
            if !has_playlist {
                return Err(own("Video path is required unless --playlist= is specified"));
            }
        }
        Ok(())
    }
}

} // verus!

verus! {

/// The text of [`Args`].
pub struct ArgsView {
    pub show_outputs: bool,
    pub verbose: u8,
    pub fork: bool,
    pub auto_pause: bool,
    pub auto_stop: bool,
    pub slideshow: Option<u32>,
    pub layer: LayerArg,
    pub mpv_options: Option<Seq<char>>,
    pub no_mpv_config: bool,
    pub restore_info: Option<Seq<char>>,
    pub output: Option<Seq<char>>,
    pub video_path: Option<Seq<char>>,
}

/// The text of an optional string.
pub open spec fn opt_text(o: Option<String>) -> Option<Seq<char>> {
    match o {
        Some(s) => Some(s@),
        None => None,
    }
}

impl View for Args {
    type V = ArgsView;

    open spec fn view(&self) -> ArgsView {
        ArgsView {
            show_outputs: self.show_outputs,
            verbose: self.verbose,
            fork: self.fork,
            auto_pause: self.auto_pause,
            auto_stop: self.auto_stop,
            slideshow: self.slideshow,
            layer: self.layer,
            mpv_options: opt_text(self.mpv_options),
            no_mpv_config: self.no_mpv_config,
            restore_info: opt_text(self.restore_info),
            output: opt_text(self.output),
            video_path: opt_text(self.video_path),
        }
    }
}

/// The arguments when none is given: nothing set, layer `background`.
pub open spec fn default_args() -> ArgsView {
    ArgsView {
        show_outputs: false,
        verbose: 0,
        fork: false,
        auto_pause: false,
        auto_stop: false,
        slideshow: None,
        layer: LayerArg::Background,
        mpv_options: None,
        no_mpv_config: false,
        restore_info: None,
        output: None,
        video_path: None,
    }
}

/// The switches without a value.
#[derive(Debug, Clone, Copy, PartialEq, Eq, Structural)]
pub enum FlagArg {
    /// `-d`, `--help-output`
    HelpOutput,
    /// `-v`, `--verbose` (counted)
    Verbose,
    /// `-f`, `--fork`
    Fork,
    /// `-p`, `--auto-pause`
    AutoPause,
    /// `-s`, `--auto-stop`
    AutoStop,
    /// `--no-mpv-config`
    NoMpvConfig,
}

/// The options that take a value.
#[derive(Debug, Clone, Copy, PartialEq, Eq, Structural)]
pub enum ValueArg {
    /// `-n`, `--slideshow <SECONDS>`
    Slideshow,
    /// `-l`, `--layer <LAYER>`
    Layer,
    /// `-o`, `--mpv-options <OPTIONS>`
    MpvOptions,
    /// `-Z <INFO>` (hidden)
    RestoreInfo,
}

/// Why a command line was not accepted (or asked for help or the version).
#[derive(Debug)]
pub enum CliError {
    /// `-h` or `--help` was given.
    Help,
    /// `-V` or `--version` was given.
    Version,
    /// An option that does not exist (the option as written).
    UnknownArgument(String),
    /// An option that needs a value got none (the option's name).
    MissingValue(String),
    /// An option that may appear once appeared again (the option's name).
    Duplicate(String),
    /// A value that the option does not accept (the value).
    InvalidValue(String),
    /// A switch was given a value (the switch's name).
    UnexpectedValue(String),
    /// A third positional argument (the argument).
    UnexpectedPositional(String),
}

/// The text of a [`CliError`].
pub enum CliErrorView {
    Help,
    Version,
    UnknownArgument(Seq<char>),
    MissingValue(Seq<char>),
    Duplicate(Seq<char>),
    InvalidValue(Seq<char>),
    UnexpectedValue(Seq<char>),
    UnexpectedPositional(Seq<char>),
}

impl View for CliError {
    type V = CliErrorView;

    open spec fn view(&self) -> CliErrorView {
        match self {
            CliError::Help => CliErrorView::Help,
            CliError::Version => CliErrorView::Version,
            CliError::UnknownArgument(s) => CliErrorView::UnknownArgument(s@),
            CliError::MissingValue(s) => CliErrorView::MissingValue(s@),
            CliError::Duplicate(s) => CliErrorView::Duplicate(s@),
            CliError::InvalidValue(s) => CliErrorView::InvalidValue(s@),
            CliError::UnexpectedValue(s) => CliErrorView::UnexpectedValue(s@),
            CliError::UnexpectedPositional(s) => CliErrorView::UnexpectedPositional(s@),
        }
    }
}

/// The name by which a switch is reported.
pub open spec fn flag_name(f: FlagArg) -> Seq<char> {
    match f {
        FlagArg::HelpOutput => "--help-output"@,
        FlagArg::Verbose => "--verbose"@,
        FlagArg::Fork => "--fork"@,
        FlagArg::AutoPause => "--auto-pause"@,
        FlagArg::AutoStop => "--auto-stop"@,
        FlagArg::NoMpvConfig => "--no-mpv-config"@,
    }
}

/// The name by which an option with a value is reported.
pub open spec fn value_name(a: ValueArg) -> Seq<char> {
    match a {
        ValueArg::Slideshow => "--slideshow"@,
        ValueArg::Layer => "--layer"@,
        ValueArg::MpvOptions => "--mpv-options"@,
        ValueArg::RestoreInfo => "-Z"@,
    }
}

/// Executable form of [`flag_name`].
fn flag_name_str(f: FlagArg) -> (r: &'static str)
    ensures
        r@ == flag_name(f),
{
    match f {
        FlagArg::HelpOutput => "--help-output",
        FlagArg::Verbose => "--verbose",
        FlagArg::Fork => "--fork",
        FlagArg::AutoPause => "--auto-pause",
        FlagArg::AutoStop => "--auto-stop",
        FlagArg::NoMpvConfig => "--no-mpv-config",
    }
}

/// Executable form of [`value_name`].
fn value_name_str(a: ValueArg) -> (r: &'static str)
    ensures
        r@ == value_name(a),
{
    match a {
        ValueArg::Slideshow => "--slideshow",
        ValueArg::Layer => "--layer",
        ValueArg::MpvOptions => "--mpv-options",
        ValueArg::RestoreInfo => "-Z",
    }
}

/// The switch a short option letter stands for.
pub open spec fn short_flag(c: char) -> Option<FlagArg> {
    if c == 'd' {
        Some(FlagArg::HelpOutput)
    } else if c == 'v' {
        Some(FlagArg::Verbose)
    } else if c == 'f' {
        Some(FlagArg::Fork)
    } else if c == 'p' {
        Some(FlagArg::AutoPause)
    } else if c == 's' {
        Some(FlagArg::AutoStop)
    } else {
        None
    }
}

/// The option with a value that a short option letter stands for.
pub open spec fn short_value(c: char) -> Option<ValueArg> {
    if c == 'n' {
        Some(ValueArg::Slideshow)
    } else if c == 'l' {
        Some(ValueArg::Layer)
    } else if c == 'o' {
        Some(ValueArg::MpvOptions)
    } else if c == 'Z' {
        Some(ValueArg::RestoreInfo)
    } else {
        None
    }
}

/// The switch a long option name stands for.
pub open spec fn long_flag(name: Seq<char>) -> Option<FlagArg> {
    if name == "help-output"@ {
        Some(FlagArg::HelpOutput)
    } else if name == "verbose"@ {
        Some(FlagArg::Verbose)
    } else if name == "fork"@ {
        Some(FlagArg::Fork)
    } else if name == "auto-pause"@ {
        Some(FlagArg::AutoPause)
    } else if name == "auto-stop"@ {
        Some(FlagArg::AutoStop)
    } else if name == "no-mpv-config"@ {
        Some(FlagArg::NoMpvConfig)
    } else {
        None
    }
}

/// The option with a value that a long option name stands for.
pub open spec fn long_value(name: Seq<char>) -> Option<ValueArg> {
    if name == "slideshow"@ {
        Some(ValueArg::Slideshow)
    } else if name == "layer"@ {
        Some(ValueArg::Layer)
    } else if name == "mpv-options"@ {
        Some(ValueArg::MpvOptions)
    } else {
        None
    }
}

/// The layer a value names (exactly, in lowercase).
pub open spec fn layer_named(v: Seq<char>) -> Option<LayerArg> {
    if v == "background"@ {
        Some(LayerArg::Background)
    } else if v == "bottom"@ {
        Some(LayerArg::Bottom)
    } else if v == "top"@ {
        Some(LayerArg::Top)
    } else if v == "overlay"@ {
        Some(LayerArg::Overlay)
    } else {
        None
    }
}

/// The value of a slideshow interval: an optional sign and decimal digits
/// read as an `i64`, accepted when it lies in `0..=u32::MAX`.
pub open spec fn seconds_value(v: Seq<char>) -> Option<u32> {
    let negative = v.len() > 0 && v[0] == '-';
    let digits = if v.len() > 0 && (v[0] == '+' || v[0] == '-') {
        v.skip(1)
    } else {
        v
    };
    if digits.len() > 0 && all_digits(digits) && digits_value(digits) <= u32::MAX && (!negative
        || digits_value(digits) == 0) {
        Some(digits_value(digits) as u32)
    } else {
        None
    }
}

/// Where a scan of the command line stands.
pub struct ScanState {
    pub args: ArgsView,
    /// Whether `--layer` was given (its default hides that).
    pub layer_given: bool,
    /// An option whose value is the next word.
    pub pending: Option<ValueArg>,
    /// Whether `--` was seen: every later word is positional.
    pub positional_only: bool,
}

/// The state before any word.
pub open spec fn initial_scan() -> ScanState {
    ScanState { args: default_args(), layer_given: false, pending: None, positional_only: false }
}

/// A switch seen: `-v` counts (up to 255); any other switch may appear once.
pub open spec fn set_flag(st: ScanState, f: FlagArg) -> std::result::Result<ScanState, CliErrorView> {
    let a = st.args;
    match f {
        FlagArg::Verbose => Ok(
            ScanState {
                args: ArgsView {
                    verbose: if a.verbose == 255 {
                        255u8
                    } else {
                        (a.verbose + 1) as u8
                    },
                    ..a
                },
                ..st
            },
        ),
        FlagArg::HelpOutput => if a.show_outputs {
            Err(CliErrorView::Duplicate(flag_name(f)))
        } else {
            Ok(ScanState { args: ArgsView { show_outputs: true, ..a }, ..st })
        },
        FlagArg::Fork => if a.fork {
            Err(CliErrorView::Duplicate(flag_name(f)))
        } else {
            Ok(ScanState { args: ArgsView { fork: true, ..a }, ..st })
        },
        FlagArg::AutoPause => if a.auto_pause {
            Err(CliErrorView::Duplicate(flag_name(f)))
        } else {
            Ok(ScanState { args: ArgsView { auto_pause: true, ..a }, ..st })
        },
        FlagArg::AutoStop => if a.auto_stop {
            Err(CliErrorView::Duplicate(flag_name(f)))
        } else {
            Ok(ScanState { args: ArgsView { auto_stop: true, ..a }, ..st })
        },
        FlagArg::NoMpvConfig => if a.no_mpv_config {
            Err(CliErrorView::Duplicate(flag_name(f)))
        } else {
            Ok(ScanState { args: ArgsView { no_mpv_config: true, ..a }, ..st })
        },
    }
}

/// Whether an option with a value was already given.
pub open spec fn value_given(st: ScanState, a: ValueArg) -> bool {
    match a {
        ValueArg::Slideshow => st.args.slideshow is Some,
        ValueArg::Layer => st.layer_given,
        ValueArg::MpvOptions => st.args.mpv_options is Some,
        ValueArg::RestoreInfo => st.args.restore_info is Some,
    }
}

/// A value for an option: once only, and it must be one the option accepts.
pub open spec fn set_value(st: ScanState, a: ValueArg, v: Seq<char>) -> std::result::Result<ScanState, CliErrorView> {
    if value_given(st, a) {
        Err(CliErrorView::Duplicate(value_name(a)))
    } else {
        let args = st.args;
        match a {
            ValueArg::Slideshow => match seconds_value(v) {
                Some(n) => Ok(ScanState { args: ArgsView { slideshow: Some(n), ..args }, ..st }),
                None => Err(CliErrorView::InvalidValue(v)),
            },
            ValueArg::Layer => match layer_named(v) {
                Some(l) => Ok(ScanState { args: ArgsView { layer: l, ..args }, layer_given: true, ..st }),
                None => Err(CliErrorView::InvalidValue(v)),
            },
            ValueArg::MpvOptions => Ok(ScanState { args: ArgsView { mpv_options: Some(v), ..args }, ..st }),
            ValueArg::RestoreInfo => Ok(ScanState { args: ArgsView { restore_info: Some(v), ..args }, ..st }),
        }
    }
}

/// A positional word: first the output, then the video path; a third is an error.
pub open spec fn set_positional(st: ScanState, w: Seq<char>) -> std::result::Result<ScanState, CliErrorView> {
    let args = st.args;
    if args.output is None {
        Ok(ScanState { args: ArgsView { output: Some(w), ..args }, ..st })
    } else if args.video_path is None {
        Ok(ScanState { args: ArgsView { video_path: Some(w), ..args }, ..st })
    } else {
        Err(CliErrorView::UnexpectedPositional(w))
    }
}

/// The text after a short option letter, as its value: one leading `=` is dropped.
pub open spec fn attached_value(rest: Seq<char>) -> Seq<char> {
    if rest.len() > 0 && rest[0] == '=' {
        rest.skip(1)
    } else {
        rest
    }
}

/// A cluster of short options (the letters after `-`), left to right: `h`
/// asks for help, `V` for the version; switches are set; a letter that takes
/// a value takes the rest of the word (or, if nothing is left, the next word).
pub open spec fn scan_short(st: ScanState, letters: Seq<char>) -> std::result::Result<ScanState, CliErrorView>
    decreases letters.len(),
{
    if letters.len() == 0 {
        Ok(st)
    } else {
        let c = letters[0];
        let rest = letters.skip(1);
        if c == 'h' {
            Err(CliErrorView::Help)
        } else if c == 'V' {
            Err(CliErrorView::Version)
        } else if let Some(f) = short_flag(c) {
            match set_flag(st, f) {
                Ok(next) => scan_short(next, rest),
                Err(e) => Err(e),
            }
        } else if let Some(a) = short_value(c) {
            if rest.len() == 0 {
                Ok(ScanState { pending: Some(a), ..st })
            } else {
                set_value(st, a, attached_value(rest))
            }
        } else {
            Err(CliErrorView::UnknownArgument(seq!['-', c]))
        }
    }
}

/// A long option (the text after `--`), with `=value` or not.
pub open spec fn scan_long(st: ScanState, body: Seq<char>) -> std::result::Result<ScanState, CliErrorView> {
    let (name, value) = match first_index_of(body, '=') {
        Some(p) => (body.take(p), Some(body.skip(p + 1))),
        None => (body, None),
    };
    if name == "help"@ {
        if value is Some {
            Err(CliErrorView::UnexpectedValue("--help"@))
        } else {
            Err(CliErrorView::Help)
        }
    } else if name == "version"@ {
        if value is Some {
            Err(CliErrorView::UnexpectedValue("--version"@))
        } else {
            Err(CliErrorView::Version)
        }
    } else if let Some(f) = long_flag(name) {
        if value is Some {
            Err(CliErrorView::UnexpectedValue(flag_name(f)))
        } else {
            set_flag(st, f)
        }
    } else if let Some(a) = long_value(name) {
        match value {
            Some(v) => set_value(st, a, v),
            None => Ok(ScanState { pending: Some(a), ..st }),
        }
    } else {
        Err(CliErrorView::UnknownArgument("--"@ + name))
    }
}

/// Whether a word looks like an option: a dash and at least one more character.
pub open spec fn option_like(w: Seq<char>) -> bool {
    w.len() > 1 && w[0] == '-'
}

/// One word of the command line.
pub open spec fn scan_word(st: ScanState, w: Seq<char>) -> std::result::Result<ScanState, CliErrorView> {
    if let Some(a) = st.pending {
        if option_like(w) {
            Err(CliErrorView::MissingValue(value_name(a)))
        } else {
            set_value(ScanState { pending: None, ..st }, a, w)
        }
    } else if st.positional_only {
        set_positional(st, w)
    } else if w == seq!['-', '-'] {
        Ok(ScanState { positional_only: true, ..st })
    } else if w.len() >= 2 && w[0] == '-' && w[1] == '-' {
        scan_long(st, w.skip(2))
    } else if option_like(w) {
        scan_short(st, w.skip(1))
    } else {
        set_positional(st, w)
    }
}

/// The words, left to right; the first error ends the scan.
pub open spec fn scan_words(st: ScanState, words: Seq<Seq<char>>) -> std::result::Result<ScanState, CliErrorView>
    decreases words.len(),
{
    if words.len() == 0 {
        Ok(st)
    } else {
        match scan_word(st, words[0]) {
            Ok(next) => scan_words(next, words.skip(1)),
            Err(e) => Err(e),
        }
    }
}

/// The arguments a command line gives (its first word is the program's name).
pub open spec fn parsed_args(argv: Seq<Seq<char>>) -> std::result::Result<ArgsView, CliErrorView> {
    let words = if argv.len() > 0 {
        argv.skip(1)
    } else {
        argv
    };
    match scan_words(initial_scan(), words) {
        Ok(st) => match st.pending {
            Some(a) => Err(CliErrorView::MissingValue(value_name(a))),
            None => Ok(st.args),
        },
        Err(e) => Err(e),
    }
}

} // verus!

verus! {

/// An executable scan state; its view is a [`ScanState`].
struct ArgScan {
    args: Args,
    layer_given: bool,
    pending: Option<ValueArg>,
    positional_only: bool,
}

impl View for ArgScan {
    type V = ScanState;

    closed spec fn view(&self) -> ScanState {
        ScanState {
            args: self.args@,
            layer_given: self.layer_given,
            pending: self.pending,
            positional_only: self.positional_only,
        }
    }
}

/// The text of a scan outcome.
spec fn scan_view(r: std::result::Result<ArgScan, CliError>) -> std::result::Result<ScanState, CliErrorView> {
    match r {
        Ok(s) => Ok(s@),
        Err(e) => Err(e@),
    }
}

impl Args {
    /// The arguments when none is given: nothing set, layer `background`.
    pub fn defaults() -> (r: Self)
        ensures
            r@ == default_args(),
    {
        Args {
            show_outputs: false,
            verbose: 0,
            fork: false,
            auto_pause: false,
            auto_stop: false,
            slideshow: None,
            layer: LayerArg::Background,
            mpv_options: None,
            no_mpv_config: false,
            restore_info: None,
            output: None,
            video_path: None,
        }
    }
}

/// A switch seen.
fn scan_flag(st: ArgScan, f: FlagArg) -> (r: std::result::Result<ArgScan, CliError>)
    ensures
        scan_view(r) == set_flag(st@, f),
{
    let mut st = st;
    match f {
        FlagArg::Verbose => {
            st.args.verbose = if st.args.verbose == 255 {
                255
            } else {
                st.args.verbose + 1
            };
            Ok(st)
        },
        FlagArg::HelpOutput => {
            if st.args.show_outputs {
                Err(CliError::Duplicate(own(flag_name_str(f))))
            } else {
                st.args.show_outputs = true;
                Ok(st)
            }
        },
        FlagArg::Fork => {
            if st.args.fork {
                Err(CliError::Duplicate(own(flag_name_str(f))))
            } else {
                st.args.fork = true;
                Ok(st)
            }
        },
        FlagArg::AutoPause => {
            if st.args.auto_pause {
                Err(CliError::Duplicate(own(flag_name_str(f))))
            } else {
                st.args.auto_pause = true;
                Ok(st)
            }
        },
        FlagArg::AutoStop => {
            if st.args.auto_stop {
                Err(CliError::Duplicate(own(flag_name_str(f))))
            } else {
                st.args.auto_stop = true;
                Ok(st)
            }
        },
        FlagArg::NoMpvConfig => {
            if st.args.no_mpv_config {
                Err(CliError::Duplicate(own(flag_name_str(f))))
            } else {
                st.args.no_mpv_config = true;
                Ok(st)
            }
        },
    }
}

/// The layer a value names.
pub fn layer_from_name(v: &str) -> (r: Option<LayerArg>)
    ensures
        r == layer_named(v@),
{
    if str_eq(v, "background") {
        Some(LayerArg::Background)
    } else if str_eq(v, "bottom") {
        Some(LayerArg::Bottom)
    } else if str_eq(v, "top") {
        Some(LayerArg::Top)
    } else if str_eq(v, "overlay") {
        Some(LayerArg::Overlay)
    } else {
        None
    }
}

/// The slideshow interval a value names.
pub fn parse_seconds(v: &str) -> (r: Option<u32>)
    ensures
        r == seconds_value(v@),
{
    let n = v.unicode_len();
    let signed = n > 0 && (v.get_char(0) == '+' || v.get_char(0) == '-');
    let negative = n > 0 && v.get_char(0) == '-';
    let digits = if signed {
        v.substring_char(1, n)
    } else {
        v.substring_char(0, n)
    };
    proof {
        assert(v@.subrange(0, n as int) =~= v@);
        assert(digits@ == (if v@.len() > 0 && (v@[0] == '+' || v@[0] == '-') {
            v@.skip(1)
        } else {
            v@
        }));
    }
    match parse_usize(digits) {
        None => {
            proof {
                if digits@.len() > 0 && all_digits(digits@) && digits_value(digits@) <= u32::MAX {
                    assert(unsigned_digits(digits@) == digits@);
                    assert(parsed_usize(digits@) is Some);
                }
            }
            None
        },
        Some(value) => {
            proof {
                if digits@.len() > 0 && digits@[0] == '+' {
                    assert(!is_digit(digits@[0]));
                }
                assert(unsigned_digits(digits@) == digits@ || (digits@.len() > 0 && digits@[0]
                    == '+'));
            }
            if digits.unicode_len() > 0 && digits.get_char(0) == '+' {
                proof {
                    assert(!all_digits(digits@));
                }
                return None;
            }
            proof {
                assert(unsigned_digits(digits@) == digits@);
            }
            if value > 0xffff_ffff {
                return None;
            }
            if negative && value != 0 {
                return None;
            }
            Some(value as u32)
        },
    }
}

/// A value for an option.
fn scan_value(st: ArgScan, a: ValueArg, v: &str) -> (r: std::result::Result<ArgScan, CliError>)
    ensures
        scan_view(r) == set_value(st@, a, v@),
{
    let mut st = st;
    let given = match a {
        ValueArg::Slideshow => st.args.slideshow.is_some(),
        ValueArg::Layer => st.layer_given,
        ValueArg::MpvOptions => st.args.mpv_options.is_some(),
        ValueArg::RestoreInfo => st.args.restore_info.is_some(),
    };
    if given {
        return Err(CliError::Duplicate(own(value_name_str(a))));
    }
    match a {
        ValueArg::Slideshow => match parse_seconds(v) {
            Some(n) => {
                st.args.slideshow = Some(n);
                Ok(st)
            },
            None => Err(CliError::InvalidValue(own(v))),
        },
        ValueArg::Layer => match layer_from_name(v) {
            Some(l) => {
                st.args.layer = l;
                st.layer_given = true;
                Ok(st)
            },
            None => Err(CliError::InvalidValue(own(v))),
        },
        ValueArg::MpvOptions => {
            st.args.mpv_options = Some(own(v));
            Ok(st)
        },
        ValueArg::RestoreInfo => {
            st.args.restore_info = Some(own(v));
            Ok(st)
        },
    }
}

/// A positional word.
fn scan_positional(st: ArgScan, w: &str) -> (r: std::result::Result<ArgScan, CliError>)
    ensures
        scan_view(r) == set_positional(st@, w@),
{
    let mut st = st;
    if st.args.output.is_none() {
        st.args.output = Some(own(w));
        Ok(st)
    } else if st.args.video_path.is_none() {
        st.args.video_path = Some(own(w));
        Ok(st)
    } else {
        Err(CliError::UnexpectedPositional(own(w)))
    }
}

/// The switch a short option letter stands for.
fn short_flag_of(c: char) -> (r: Option<FlagArg>)
    ensures
        r == short_flag(c),
{
    if c == 'd' {
        Some(FlagArg::HelpOutput)
    } else if c == 'v' {
        Some(FlagArg::Verbose)
    } else if c == 'f' {
        Some(FlagArg::Fork)
    } else if c == 'p' {
        Some(FlagArg::AutoPause)
    } else if c == 's' {
        Some(FlagArg::AutoStop)
    } else {
        None
    }
}

/// The option with a value that a short option letter stands for.
fn short_value_of(c: char) -> (r: Option<ValueArg>)
    ensures
        r == short_value(c),
{
    if c == 'n' {
        Some(ValueArg::Slideshow)
    } else if c == 'l' {
        Some(ValueArg::Layer)
    } else if c == 'o' {
        Some(ValueArg::MpvOptions)
    } else if c == 'Z' {
        Some(ValueArg::RestoreInfo)
    } else {
        None
    }
}

/// A cluster of short options: the letters of `word` after its first character.
fn scan_short_word(start: ArgScan, word: &str) -> (r: std::result::Result<ArgScan, CliError>)
    requires
        word@.len() >= 1,
    ensures
        scan_view(r) == scan_short(start@, word@.skip(1)),
{
    let n = word.unicode_len();
    let ghost st0 = start@;
    let mut st = start;
    let mut j: usize = 1;
    let ghost goal = scan_short(st@, word@.skip(1));
    while j < n
        invariant
            n == word@.len(),
            1 <= j <= n,
            st0 == start@,
            goal == scan_short(st0, word@.skip(1)),
            goal == scan_short(st@, word@.skip(j as int)),
        decreases n - j,
    {
        let c = word.get_char(j);
        let ghost letters = word@.skip(j as int);
        assert(letters.len() > 0);
        assert(letters[0] == c);
        assert(letters.skip(1) =~= word@.skip(j + 1));
        assert(scan_short(st@, letters) == (if c == 'h' {
            Err(CliErrorView::Help)
        } else if c == 'V' {
            Err(CliErrorView::Version)
        } else if let Some(f) = short_flag(c) {
            match set_flag(st@, f) {
                Ok(next) => scan_short(next, letters.skip(1)),
                Err(e) => Err(e),
            }
        } else if let Some(a) = short_value(c) {
            if letters.skip(1).len() == 0 {
                Ok(ScanState { pending: Some(a), ..st@ })
            } else {
                set_value(st@, a, attached_value(letters.skip(1)))
            }
        } else {
            Err(CliErrorView::UnknownArgument(seq!['-', c]))
        }));
        if c == 'h' {
            return Err(CliError::Help);
        }
        if c == 'V' {
            return Err(CliError::Version);
        }
        match short_flag_of(c) {
            Some(f) => {
                match scan_flag(st, f) {
                    Ok(next) => {
                        st = next;
                    },
                    Err(e) => {
                        return Err(e);
                    },
                }
            },
            None => match short_value_of(c) {
                Some(a) => {
                    if j + 1 == n {
                        st.pending = Some(a);
                        assert(letters.skip(1).len() == 0);
                        return Ok(st);
                    }
                    let rest = word.substring_char(j + 1, n);
                    assert(rest@ == letters.skip(1));
                    let m = rest.unicode_len();
                    let value = if rest.get_char(0) == '=' {
                        rest.substring_char(1, m)
                    } else {
                        rest.substring_char(0, m)
                    };
                    assert(rest@.subrange(0, m as int) =~= rest@);
                    assert(value@ == attached_value(rest@));
                    return scan_value(st, a, value);
                },
                None => {
                    let mut name = own("-");
                    proof {
                        reveal_strlit("-");
                    }
                    let letter = word.substring_char(j, j + 1);
                    name.append(letter);
                    assert(name@ =~= seq!['-', c]);
                    return Err(CliError::UnknownArgument(name));
                },
            },
        }
        j = j + 1;
    }
    assert(word@.skip(j as int).len() == 0);
    Ok(st)
}

/// The switch a long option name stands for.
fn long_flag_of(name: &str) -> (r: Option<FlagArg>)
    ensures
        r == long_flag(name@),
{
    if str_eq(name, "help-output") {
        Some(FlagArg::HelpOutput)
    } else if str_eq(name, "verbose") {
        Some(FlagArg::Verbose)
    } else if str_eq(name, "fork") {
        Some(FlagArg::Fork)
    } else if str_eq(name, "auto-pause") {
        Some(FlagArg::AutoPause)
    } else if str_eq(name, "auto-stop") {
        Some(FlagArg::AutoStop)
    } else if str_eq(name, "no-mpv-config") {
        Some(FlagArg::NoMpvConfig)
    } else {
        None
    }
}

/// The option with a value that a long option name stands for.
fn long_value_of(name: &str) -> (r: Option<ValueArg>)
    ensures
        r == long_value(name@),
{
    if str_eq(name, "slideshow") {
        Some(ValueArg::Slideshow)
    } else if str_eq(name, "layer") {
        Some(ValueArg::Layer)
    } else if str_eq(name, "mpv-options") {
        Some(ValueArg::MpvOptions)
    } else {
        None
    }
}

/// A long option: the text of `word` after its leading `--`.
fn scan_long_word(st: ArgScan, word: &str) -> (r: std::result::Result<ArgScan, CliError>)
    requires
        word@.len() >= 2,
    ensures
        scan_view(r) == scan_long(st@, word@.skip(2)),
{
    let mut st = st;
    let n = word.unicode_len();
    let body = word.substring_char(2, n);
    assert(body@ == word@.skip(2));
    let m = body.unicode_len();
    let (name, value): (&str, Option<&str>) = match find_char(body, '=') {
        Some(p) => (body.substring_char(0, p), Some(body.substring_char(p + 1, m))),
        None => (body.substring_char(0, m), None),
    };
    proof {
        assert(body@.subrange(0, m as int) =~= body@);
        match first_index_of(body@, '=') {
            Some(p) => {
                assert(name@ == body@.take(p));
                assert(value.unwrap()@ == body@.skip(p + 1));
            },
            None => {
                assert(name@ == body@);
            },
        }
    }
    if str_eq(name, "help") {
        if value.is_some() {
            return Err(CliError::UnexpectedValue(own("--help")));
        }
        return Err(CliError::Help);
    }
    if str_eq(name, "version") {
        if value.is_some() {
            return Err(CliError::UnexpectedValue(own("--version")));
        }
        return Err(CliError::Version);
    }
    match long_flag_of(name) {
        Some(f) => {
            if value.is_some() {
                return Err(CliError::UnexpectedValue(own(flag_name_str(f))));
            }
            return scan_flag(st, f);
        },
        None => {},
    }
    match long_value_of(name) {
        Some(a) => match value {
            Some(v) => scan_value(st, a, v),
            None => {
                st.pending = Some(a);
                Ok(st)
            },
        },
        None => Err(CliError::UnknownArgument(concat2("--", name))),
    }
}

/// One word of the command line.
fn scan_one(st: ArgScan, w: &str) -> (r: std::result::Result<ArgScan, CliError>)
    ensures
        scan_view(r) == scan_word(st@, w@),
{
    let mut st = st;
    let n = w.unicode_len();
    let looks_like_option = n > 1 && w.get_char(0) == '-';
    match st.pending {
        Some(a) => {
            if looks_like_option {
                return Err(CliError::MissingValue(own(value_name_str(a))));
            }
            st.pending = None;
            return scan_value(st, a, w);
        },
        None => {},
    }
    if st.positional_only {
        return scan_positional(st, w);
    }
    if n == 2 && w.get_char(0) == '-' && w.get_char(1) == '-' {
        assert(w@ =~= seq!['-', '-']);
        st.positional_only = true;
        return Ok(st);
    }
    if n >= 2 && w.get_char(0) == '-' && w.get_char(1) == '-' {
        assert(w@ != seq!['-', '-']);
        return scan_long_word(st, w);
    }
    if looks_like_option {
        return scan_short_word(st, w);
    }
    scan_positional(st, w)
}

impl Args {
    /// Parse a command line (its first word is the program's name). Options
    /// may come in any order between the positional output and video path:
    /// `-d/--help-output`, `-v/--verbose` (counted), `-f/--fork`,
    /// `-p/--auto-pause`, `-s/--auto-stop`, `--no-mpv-config`,
    /// `-n/--slideshow <SECONDS>`, `-l/--layer <LAYER>` (default
    /// `background`), `-o/--mpv-options <OPTIONS>` and the hidden `-Z <INFO>`;
    /// short switches may be grouped (`-vvp`), and a value follows as the
    /// next word, after `=` or, for a short option, directly.
    pub fn try_parse_from(argv: &[&str]) -> (r: std::result::Result<Args, CliError>)
        ensures
            match r {
                Ok(a) => parsed_args(argv@.map_values(|w: &str| w@)) == Ok::<ArgsView, CliErrorView>(a@),
                Err(e) => parsed_args(argv@.map_values(|w: &str| w@)) == Err::<ArgsView, CliErrorView>(e@),
            },
    {
        let ghost words = argv@.map_values(|w: &str| w@);
        let mut st = ArgScan { args: Args::defaults(), layer_given: false, pending: None, positional_only: false };
        let start: usize = if argv.len() > 0 {
            1
        } else {
            0
        };
        let ghost rest = if words.len() > 0 {
            words.skip(1)
        } else {
            words
        };
        let ghost goal = scan_words(initial_scan(), rest);
        let mut i: usize = start;
        assert(words.skip(start as int) =~= rest);
        while i < argv.len()
            invariant
                words == argv@.map_values(|w: &str| w@),
                start <= i <= argv.len(),
                rest == (if words.len() > 0 {
                    words.skip(1)
                } else {
                    words
                }),
                goal == scan_words(initial_scan(), rest),
                goal == scan_words(st@, words.skip(i as int)),
            decreases argv.len() - i,
        {
            let w = argv[i];
            assert(words.skip(i as int)[0] == w@);
            assert(words.skip(i as int).skip(1) =~= words.skip(i + 1));
            match scan_one(st, w) {
                Ok(next) => {
                    st = next;
                },
                Err(e) => {
                    return Err(e);
                },
            }
            i = i + 1;
        }
        assert(words.skip(i as int).len() == 0);
        match st.pending {
            Some(a) => Err(CliError::MissingValue(own(value_name_str(a)))),
            None => Ok(st.args),
        }
    }

    /// Parse a command line that is known to be well-formed.
    pub fn parse_from(argv: &[&str]) -> (r: Args)
        requires
            parsed_args(argv@.map_values(|w: &str| w@)) is Ok,
        ensures
            parsed_args(argv@.map_values(|w: &str| w@)) == Ok::<ArgsView, CliErrorView>(r@),
    {
        match Args::try_parse_from(argv) {
            Ok(a) => a,
            Err(_) => vstd::pervasive::unreached(),
        }
    }
}

} // verus!

verus! {

/// `count` copies of a word.
pub open spec fn repeated(word: Seq<char>, count: nat) -> Seq<Seq<char>>
    decreases count,
{
    if count == 0 {
        Seq::empty()
    } else {
        repeated(word, (count - 1) as nat).push(word)
    }
}

/// The name of a layer on the command line.
pub open spec fn layer_text(l: LayerArg) -> Seq<char> {
    match l {
        LayerArg::Background => "background"@,
        LayerArg::Bottom => "bottom"@,
        LayerArg::Top => "top"@,
        LayerArg::Overlay => "overlay"@,
    }
}

/// The words `[w]` when `b` holds, else none.
pub open spec fn word_if(b: bool, w: Seq<char>) -> Seq<Seq<char>> {
    if b {
        seq![w]
    } else {
        Seq::empty()
    }
}

/// An option and its value when the value is present, else nothing.
pub open spec fn option_words(option: Seq<char>, value: Option<Seq<char>>) -> Seq<Seq<char>> {
    match value {
        Some(v) => seq![option, v],
        None => Seq::empty(),
    }
}

/// The optional positional word.
pub open spec fn positional_word(value: Option<Seq<char>>) -> Seq<Seq<char>> {
    match value {
        Some(v) => seq![v],
        None => Seq::empty(),
    }
}

/// An option with its value attached in one word, `prefix` then the value,
/// when the value is present, else nothing.
pub open spec fn attached_word(prefix: Seq<char>, value: Option<Seq<char>>) -> Seq<Seq<char>> {
    match value {
        Some(v) => seq![prefix + v],
        None => Seq::empty(),
    }
}

/// The words (after the program's name) with which the player hands over to
/// the holder, and the holder revives the player: the verbosity, `-p`, `-s`,
/// the slideshow interval, the layer, `--no-mpv-config`, the mpv options
/// (`--mpv-options=...`) and the playback position to restore (`-Z=...`),
/// then `--` and the output and the video path. Values that may start with
/// a dash are attached to their option or come after `--`, so every value
/// reads back as itself. `-d` and `-f` are not passed on.
pub open spec fn relaunch_words(a: ArgsView, restore: Option<Seq<char>>) -> Seq<Seq<char>> {
    repeated(seq!['-', 'v'], a.verbose as nat) + word_if(a.auto_pause, seq!['-', 'p']) + word_if(
        a.auto_stop,
        seq!['-', 's'],
    ) + option_words(
        seq!['-', 'n'],
        match a.slideshow {
            Some(n) => Some(crate::numtext::decimal(n as nat)),
            None => None,
        },
    ) + seq![seq!['-', 'l'], layer_text(a.layer)] + word_if(a.no_mpv_config, "--no-mpv-config"@)
        + attached_word("--mpv-options="@, a.mpv_options) + attached_word("-Z="@, restore) + seq![
        seq!['-', '-'],
    ] + positional_word(a.output) + positional_word(a.video_path)
}

/// The name of a layer on the command line.
pub fn layer_name(l: LayerArg) -> (r: &'static str)
    ensures
        r@ == layer_text(l),
{
    match l {
        LayerArg::Background => "background",
        LayerArg::Bottom => "bottom",
        LayerArg::Top => "top",
        LayerArg::Overlay => "overlay",
    }
}

/// A two-character word `-c`.
fn dash_word(c: char) -> (r: String)
    requires
        c == 'v' || c == 'p' || c == 's' || c == 'n' || c == 'l',
    ensures
        r@ == seq!['-', c],
{
    proof {
        reveal_strlit("-v");
        reveal_strlit("-p");
        reveal_strlit("-s");
        reveal_strlit("-n");
        reveal_strlit("-l");
    }
    let w = if c == 'v' {
        "-v"
    } else if c == 'p' {
        "-p"
    } else if c == 's' {
        "-s"
    } else if c == 'n' {
        "-n"
    } else {
        "-l"
    };
    assert(w@ =~= seq!['-', c]);
    own(w)
}

/// Reconstruct the arguments (after the program's name) for handing over to
/// the holder and for reviving the player: see [`relaunch_words`]. `restore`
/// is the playback position to pass with `-Z`.
pub fn relaunch_arguments(args: &Args, restore: Option<&String>) -> (r: Vec<String>)
    ensures
        strings_view(r@) == relaunch_words(
            args@,
            match restore {
                Some(s) => Some(s@),
                None => None,
            },
        ),
{
    let ghost a = args@;
    let mut out: Vec<String> = Vec::new();
    let mut k: u8 = 0;
    assert(strings_view(out@) =~= repeated(seq!['-', 'v'], 0));
    while k < args.verbose
        invariant
            k <= args.verbose,
            strings_view(out@) == repeated(seq!['-', 'v'], k as nat),
        decreases args.verbose - k,
    {
        out.push(dash_word('v'));
        k = k + 1;
        assert(strings_view(out@) =~= repeated(seq!['-', 'v'], k as nat));
    }
    let ghost acc0 = strings_view(out@);
    if args.auto_pause {
        out.push(dash_word('p'));
    }
    assert(strings_view(out@) =~= acc0 + word_if(a.auto_pause, seq!['-', 'p']));
    let ghost acc1 = strings_view(out@);
    if args.auto_stop {
        out.push(dash_word('s'));
    }
    assert(strings_view(out@) =~= acc1 + word_if(a.auto_stop, seq!['-', 's']));
    let ghost acc2 = strings_view(out@);
    match args.slideshow {
        Some(secs) => {
            out.push(dash_word('n'));
            out.push(decimal_string(secs as u64));
        },
        None => {},
    }
    let ghost slide = match a.slideshow {
        Some(n) => Some(crate::numtext::decimal(n as nat)),
        None => None,
    };
    assert(strings_view(out@) =~= acc2 + option_words(seq!['-', 'n'], slide));
    let ghost acc3 = strings_view(out@);
    out.push(dash_word('l'));
    out.push(own(layer_name(args.layer)));
    assert(strings_view(out@) =~= acc3 + seq![seq!['-', 'l'], layer_text(a.layer)]);
    let ghost acc4 = strings_view(out@);
    if args.no_mpv_config {
        out.push(own("--no-mpv-config"));
    }
    assert(strings_view(out@) =~= acc4 + word_if(a.no_mpv_config, "--no-mpv-config"@));
    let ghost acc5 = strings_view(out@);
    match &args.mpv_options {
        Some(opts) => {
            out.push(concat2("--mpv-options=", opts.as_str()));
        },
        None => {},
    }
    assert(strings_view(out@) =~= acc5 + attached_word("--mpv-options="@, a.mpv_options));
    let ghost acc6 = strings_view(out@);
    let ghost rv = match restore {
        Some(s) => Some(s@),
        None => None,
    };
    match restore {
        Some(info) => {
            out.push(concat2("-Z=", info.as_str()));
        },
        None => {},
    }
    assert(strings_view(out@) =~= acc6 + attached_word("-Z="@, rv));
    let ghost acc6b = strings_view(out@);
    proof {
        reveal_strlit("--");
    }
    out.push(own("--"));
    assert("--"@ =~= seq!['-', '-']);
    assert(strings_view(out@) =~= acc6b + seq![seq!['-', '-']]);
    let ghost acc7 = strings_view(out@);
    match &args.output {
        Some(o) => {
            out.push(o.clone());
        },
        None => {},
    }
    assert(strings_view(out@) =~= acc7 + positional_word(a.output));
    let ghost acc8 = strings_view(out@);
    match &args.video_path {
        Some(v) => {
            out.push(v.clone());
        },
        None => {},
    }
    assert(strings_view(out@) =~= acc8 + positional_word(a.video_path));
    out
}

} // verus!

verus! {

/// Scanning two runs of words one after the other is scanning the first and
/// then, if it succeeded, the second.
proof fn lemma_scan_append(st: ScanState, w1: Seq<Seq<char>>, w2: Seq<Seq<char>>)
    ensures
        scan_words(st, w1 + w2) == (match scan_words(st, w1) {
            Ok(mid) => scan_words(mid, w2),
            Err(e) => Err(e),
        }),
    decreases w1.len(),
{
    if w1.len() == 0 {
        assert(w1 + w2 =~= w2);
    } else {
        assert((w1 + w2)[0] == w1[0]);
        assert((w1 + w2).skip(1) =~= w1.skip(1) + w2);
        match scan_word(st, w1[0]) {
            Ok(next) => {
                lemma_scan_append(next, w1.skip(1), w2);
            },
            Err(e) => {},
        }
    }
}

/// Chaining two successful scans.
proof fn lemma_scan_then(
    st: ScanState,
    w1: Seq<Seq<char>>,
    mid: ScanState,
    w2: Seq<Seq<char>>,
    end: ScanState,
)
    requires
        scan_words(st, w1) == Ok::<ScanState, CliErrorView>(mid),
        scan_words(mid, w2) == Ok::<ScanState, CliErrorView>(end),
    ensures
        scan_words(st, w1 + w2) == Ok::<ScanState, CliErrorView>(end),
{
    lemma_scan_append(st, w1, w2);
}

/// Scanning a single word.
proof fn lemma_scan_single(st: ScanState, w: Seq<char>)
    ensures
        scan_words(st, seq![w]) == scan_word(st, w),
{
    reveal_with_fuel(scan_words, 2);
    assert(seq![w][0] == w);
    assert(seq![w].skip(1) =~= Seq::<Seq<char>>::empty());
}

/// Whether a scan is between words: no value owed, options still recognised.
pub open spec fn between_words(st: ScanState) -> bool {
    st.pending is None && !st.positional_only
}

/// `-v` given `k` times (without passing 255) counts `k`.
proof fn lemma_scan_verbose(st: ScanState, k: nat)
    requires
        between_words(st),
        st.args.verbose + k <= 255,
    ensures
        scan_words(st, repeated(seq!['-', 'v'], k)) == Ok::<ScanState, CliErrorView>(
            ScanState { args: ArgsView { verbose: (st.args.verbose + k) as u8, ..st.args }, ..st },
        ),
    decreases k,
{
    if k == 0 {
        assert(st.args == ArgsView { verbose: (st.args.verbose + k) as u8, ..st.args });
    } else {
        lemma_scan_verbose(st, (k - 1) as nat);
        let mid = ScanState {
            args: ArgsView { verbose: (st.args.verbose + k - 1) as u8, ..st.args },
            ..st
        };
        let w = seq!['-', 'v'];
        assert(w.skip(1) =~= seq!['v']);
        assert(seq!['v'].skip(1) =~= Seq::<char>::empty());
        assert(w != seq!['-', '-']) by {
            assert(w[1] != seq!['-', '-'][1]);
        }
        reveal_with_fuel(scan_short, 2);
        lemma_scan_single(mid, w);
        lemma_scan_then(st, repeated(w, (k - 1) as nat), mid, seq![w], ScanState {
            args: ArgsView { verbose: (st.args.verbose + k) as u8, ..st.args },
            ..st
        });
        assert(repeated(w, (k - 1) as nat) + seq![w] =~= repeated(w, k));
    }
}

/// A short switch given as `-c`, when not yet given.
proof fn lemma_scan_short_flag(st: ScanState, c: char, f: FlagArg)
    requires
        between_words(st),
        short_flag(c) == Some(f),
        c != 'h' && c != 'V',
        set_flag(st, f) is Ok,
    ensures
        scan_words(st, seq![seq!['-', c]]) == set_flag(st, f),
{
    let w = seq!['-', c];
    assert(w.skip(1) =~= seq![c]);
    assert(seq![c].skip(1) =~= Seq::<char>::empty());
    assert(w != seq!['-', '-']) by {
        assert(w[1] != seq!['-', '-'][1]);
    }
    reveal_with_fuel(scan_short, 2);
    lemma_scan_single(st, w);
}

/// An option with a value given as `-c value`, when not yet given and the
/// value does not look like an option.
proof fn lemma_scan_short_value(st: ScanState, c: char, a: ValueArg, v: Seq<char>)
    requires
        between_words(st),
        short_value(c) == Some(a),
        short_flag(c) is None,
        c != 'h' && c != 'V',
        !option_like(v),
    ensures
        scan_words(st, seq![seq!['-', c], v]) == set_value(st, a, v),
{
    let w = seq!['-', c];
    assert(w.skip(1) =~= seq![c]);
    assert(seq![c].skip(1) =~= Seq::<char>::empty());
    let mid = ScanState { pending: Some(a), ..st };
    assert(scan_word(st, w) == Ok::<ScanState, CliErrorView>(mid));
    assert(seq![w, v].skip(1) =~= seq![v]);
    lemma_scan_single(mid, v);
    assert(ScanState { pending: None, ..mid } == st);
}

/// A slideshow interval written in decimal is accepted back.
proof fn lemma_seconds_read_back(n: u32)
    ensures
        seconds_value(crate::numtext::decimal(n as nat)) == Some(n),
        !option_like(crate::numtext::decimal(n as nat)),
{
    let d = crate::numtext::decimal(n as nat);
    lemma_decimal_reads_back(n as nat);
    assert(is_digit(d[0]));
}

/// Layer names are accepted back and do not look like options.
proof fn lemma_layer_read_back(l: LayerArg)
    ensures
        layer_named(layer_text(l)) == Some(l),
        !option_like(layer_text(l)),
{
    reveal_strlit("background");
    reveal_strlit("bottom");
    reveal_strlit("top");
    reveal_strlit("overlay");
    assert("background"@.len() == 10);
    assert("bottom"@.len() == 6);
    assert("top"@.len() == 3);
    assert("overlay"@.len() == 7);
}

/// `--no-mpv-config` is recognised as that switch.
proof fn lemma_scan_no_mpv_config(st: ScanState)
    requires
        between_words(st),
        !st.args.no_mpv_config,
    ensures
        scan_words(st, seq!["--no-mpv-config"@]) == Ok::<ScanState, CliErrorView>(
            ScanState { args: ArgsView { no_mpv_config: true, ..st.args }, ..st },
        ),
{
    let w = "--no-mpv-config"@;
    reveal_strlit("--no-mpv-config");
    reveal_strlit("help");
    reveal_strlit("version");
    reveal_strlit("help-output");
    reveal_strlit("verbose");
    reveal_strlit("fork");
    reveal_strlit("auto-pause");
    reveal_strlit("auto-stop");
    reveal_strlit("no-mpv-config");
    let body = w.skip(2);
    assert(body =~= "no-mpv-config"@);
    assert(first_index_of(body, '=') is None) by {
        reveal(first_index_of);
        assert forall|i: int| 0 <= i < body.len() implies body[i] != '=' by {
            assert(i == 0 || i == 1 || i == 2 || i == 3 || i == 4 || i == 5 || i == 6 || i == 7 || i
                == 8 || i == 9 || i == 10 || i == 11 || i == 12);
        }
    }
    assert(w != seq!['-', '-']);
    lemma_scan_single(st, w);
}

/// The switches of a relaunch: `-v` repeated, then `-p` and `-s` when set.
proof fn lemma_relaunch_switches(st: ScanState, a: ArgsView)
    requires
        between_words(st),
        st.args.verbose == 0,
        !st.args.auto_pause,
        !st.args.auto_stop,
    ensures
        scan_words(
            st,
            repeated(seq!['-', 'v'], a.verbose as nat) + word_if(a.auto_pause, seq!['-', 'p'])
                + word_if(a.auto_stop, seq!['-', 's']),
        ) == Ok::<ScanState, CliErrorView>(
            ScanState {
                args: ArgsView {
                    verbose: a.verbose,
                    auto_pause: a.auto_pause,
                    auto_stop: a.auto_stop,
                    ..st.args
                },
                ..st
            },
        ),
{
    let v_words = repeated(seq!['-', 'v'], a.verbose as nat);
    lemma_scan_verbose(st, a.verbose as nat);
    let s1 = ScanState { args: ArgsView { verbose: a.verbose, ..st.args }, ..st };
    let p_words = word_if(a.auto_pause, seq!['-', 'p']);
    let s2 = ScanState { args: ArgsView { auto_pause: a.auto_pause, ..s1.args }, ..s1 };
    if a.auto_pause {
        lemma_scan_short_flag(s1, 'p', FlagArg::AutoPause);
    }
    assert(scan_words(s1, p_words) == Ok::<ScanState, CliErrorView>(s2));
    lemma_scan_then(st, v_words, s1, p_words, s2);
    let s_words = word_if(a.auto_stop, seq!['-', 's']);
    let s3 = ScanState { args: ArgsView { auto_stop: a.auto_stop, ..s2.args }, ..s2 };
    if a.auto_stop {
        lemma_scan_short_flag(s2, 's', FlagArg::AutoStop);
    }
    assert(scan_words(s2, s_words) == Ok::<ScanState, CliErrorView>(s3));
    lemma_scan_then(st, v_words + p_words, s2, s_words, s3);
}

/// The slideshow interval and the layer of a relaunch.
proof fn lemma_relaunch_interval_layer(st: ScanState, a: ArgsView)
    requires
        between_words(st),
        st.args.slideshow is None,
        !st.layer_given,
    ensures
        scan_words(
            st,
            option_words(
                seq!['-', 'n'],
                match a.slideshow {
                    Some(n) => Some(crate::numtext::decimal(n as nat)),
                    None => None,
                },
            ) + seq![seq!['-', 'l'], layer_text(a.layer)],
        ) == Ok::<ScanState, CliErrorView>(
            ScanState {
                args: ArgsView { slideshow: a.slideshow, layer: a.layer, ..st.args },
                layer_given: true,
                ..st
            },
        ),
{
    let slide = match a.slideshow {
        Some(n) => Some(crate::numtext::decimal(n as nat)),
        None => None,
    };
    let n_words = option_words(seq!['-', 'n'], slide);
    let s4 = ScanState { args: ArgsView { slideshow: a.slideshow, ..st.args }, ..st };
    match a.slideshow {
        Some(n) => {
            lemma_seconds_read_back(n);
            lemma_scan_short_value(st, 'n', ValueArg::Slideshow, crate::numtext::decimal(n as nat));
        },
        None => {},
    }
    assert(scan_words(st, n_words) == Ok::<ScanState, CliErrorView>(s4));
    let l_words = seq![seq!['-', 'l'], layer_text(a.layer)];
    let s5 = ScanState { args: ArgsView { layer: a.layer, ..s4.args }, layer_given: true, ..s4 };
    lemma_layer_read_back(a.layer);
    lemma_scan_short_value(s4, 'l', ValueArg::Layer, layer_text(a.layer));
    lemma_scan_then(st, n_words, s4, l_words, s5);
}

/// The mpv options attached to their long option, `--mpv-options=...`.
proof fn lemma_scan_mpv_options_attached(st: ScanState, o: Seq<char>)
    requires
        between_words(st),
        st.args.mpv_options is None,
    ensures
        scan_words(st, seq!["--mpv-options="@ + o]) == Ok::<ScanState, CliErrorView>(
            ScanState { args: ArgsView { mpv_options: Some(o), ..st.args }, ..st },
        ),
{
    reveal_strlit("--mpv-options=");
    reveal_strlit("mpv-options");
    reveal_strlit("help");
    reveal_strlit("version");
    reveal_strlit("help-output");
    reveal_strlit("verbose");
    reveal_strlit("fork");
    reveal_strlit("auto-pause");
    reveal_strlit("auto-stop");
    reveal_strlit("no-mpv-config");
    reveal_strlit("slideshow");
    reveal_strlit("layer");
    let w = "--mpv-options="@ + o;
    let name = "mpv-options"@;
    let body = w.skip(2);
    assert(body =~= name + seq!['='] + o);
    assert forall|i: int| 0 <= i < name.len() implies name[i] != '=' by {
        assert(0 <= i < 11);
    }
    crate::text::lemma_first_index_after(name, '=', o);
    assert(body.take(11) =~= name);
    assert(body.skip(12) =~= o);
    assert(name != "help-output"@) by {
        assert(name[0] != "help-output"@[0]);
    }
    assert(w.len() > 2);
    assert(w[0] == '-' && w[1] == '-');
    assert(w != seq!['-', '-']);
    lemma_scan_single(st, w);
}

/// The position to restore attached to its option, `-Z=...`.
proof fn lemma_scan_restore_attached(st: ScanState, r: Seq<char>)
    requires
        between_words(st),
        st.args.restore_info is None,
    ensures
        scan_words(st, seq!["-Z="@ + r]) == Ok::<ScanState, CliErrorView>(
            ScanState { args: ArgsView { restore_info: Some(r), ..st.args }, ..st },
        ),
{
    reveal_strlit("-Z=");
    let w = "-Z="@ + r;
    assert(w[0] == '-' && w[1] == 'Z' && w[2] == '=');
    assert(w != seq!['-', '-']) by {
        assert(w[1] != seq!['-', '-'][1]);
    }
    let letters = w.skip(1);
    assert(letters[0] == 'Z');
    let rest = letters.skip(1);
    assert(rest =~= seq!['='] + r);
    assert(rest.skip(1) =~= r);
    lemma_scan_single(st, w);
}

/// `--no-mpv-config`, the mpv options and the position to restore of a relaunch.
proof fn lemma_relaunch_config_options(st: ScanState, a: ArgsView, restore: Option<Seq<char>>)
    requires
        between_words(st),
        !st.args.no_mpv_config,
        st.args.mpv_options is None,
        st.args.restore_info is None,
    ensures
        scan_words(
            st,
            word_if(a.no_mpv_config, "--no-mpv-config"@) + attached_word("--mpv-options="@, a.mpv_options)
                + attached_word("-Z="@, restore),
        ) == Ok::<ScanState, CliErrorView>(
            ScanState {
                args: ArgsView {
                    no_mpv_config: a.no_mpv_config,
                    mpv_options: a.mpv_options,
                    restore_info: restore,
                    ..st.args
                },
                ..st
            },
        ),
{
    let c_words = word_if(a.no_mpv_config, "--no-mpv-config"@);
    let s6 = ScanState { args: ArgsView { no_mpv_config: a.no_mpv_config, ..st.args }, ..st };
    if a.no_mpv_config {
        lemma_scan_no_mpv_config(st);
    }
    assert(scan_words(st, c_words) == Ok::<ScanState, CliErrorView>(s6));
    let o_words = attached_word("--mpv-options="@, a.mpv_options);
    let s7 = ScanState { args: ArgsView { mpv_options: a.mpv_options, ..s6.args }, ..s6 };
    match a.mpv_options {
        Some(o) => {
            lemma_scan_mpv_options_attached(s6, o);
        },
        None => {},
    }
    assert(scan_words(s6, o_words) == Ok::<ScanState, CliErrorView>(s7));
    lemma_scan_then(st, c_words, s6, o_words, s7);
    let z_words = attached_word("-Z="@, restore);
    let s8 = ScanState { args: ArgsView { restore_info: restore, ..s7.args }, ..s7 };
    match restore {
        Some(r) => {
            lemma_scan_restore_attached(s7, r);
        },
        None => {},
    }
    assert(scan_words(s7, z_words) == Ok::<ScanState, CliErrorView>(s8));
    lemma_scan_then(st, c_words + o_words, s7, z_words, s8);
}

/// A word after `--` fills the first free positional slot.
proof fn lemma_scan_after_double_dash(st: ScanState, w: Seq<char>)
    requires
        st.pending is None,
        st.positional_only,
    ensures
        scan_words(st, seq![w]) == set_positional(st, w),
{
    lemma_scan_single(st, w);
}

/// `--`, then the output and the video path of a relaunch.
proof fn lemma_relaunch_positionals(st: ScanState, a: ArgsView)
    requires
        between_words(st),
        st.args.output is None,
        st.args.video_path is None,
        a.video_path is Some ==> a.output is Some,
    ensures
        scan_words(st, seq![seq!['-', '-']] + positional_word(a.output) + positional_word(a.video_path))
            == Ok::<ScanState, CliErrorView>(
            ScanState {
                args: ArgsView { output: a.output, video_path: a.video_path, ..st.args },
                positional_only: true,
                ..st
            },
        ),
{
    let dd = seq![seq!['-', '-']];
    let s8 = ScanState { positional_only: true, ..st };
    lemma_scan_single(st, seq!['-', '-']);
    assert(scan_words(st, dd) == Ok::<ScanState, CliErrorView>(s8));
    let out_words = positional_word(a.output);
    let s9 = ScanState { args: ArgsView { output: a.output, ..s8.args }, ..s8 };
    match a.output {
        Some(o) => {
            lemma_scan_after_double_dash(s8, o);
        },
        None => {},
    }
    assert(scan_words(s8, out_words) == Ok::<ScanState, CliErrorView>(s9));
    lemma_scan_then(st, dd, s8, out_words, s9);
    let vid_words = positional_word(a.video_path);
    let s10 = ScanState { args: ArgsView { video_path: a.video_path, ..s9.args }, ..s9 };
    match a.video_path {
        Some(v) => {
            lemma_scan_after_double_dash(s9, v);
        },
        None => {},
    }
    assert(scan_words(s9, vid_words) == Ok::<ScanState, CliErrorView>(s10));
    lemma_scan_then(st, dd + out_words, s9, vid_words, s10);
}

/// Whether scanning `words` from `st` ends in `end`.
#[verifier::opaque]
spec fn scans_to(st: ScanState, words: Seq<Seq<char>>, end: ScanState) -> bool {
    scan_words(st, words) == Ok::<ScanState, CliErrorView>(end)
}

/// Chaining two successful scans, stated over [`scans_to`].
proof fn lemma_scans_to_then(
    st: ScanState,
    w1: Seq<Seq<char>>,
    mid: ScanState,
    w2: Seq<Seq<char>>,
    end: ScanState,
)
    requires
        scans_to(st, w1, mid),
        scans_to(mid, w2, end),
    ensures
        scans_to(st, w1 + w2, end),
{
    reveal(scans_to);
    lemma_scan_then(st, w1, mid, w2, end);
}

/// The relaunch words in four groups: switches, interval and layer, config
/// and options, positionals.
proof fn lemma_relaunch_words_grouped(a: ArgsView, restore: Option<Seq<char>>)
    ensures
        relaunch_words(a, restore) == (repeated(seq!['-', 'v'], a.verbose as nat) + word_if(
            a.auto_pause,
            seq!['-', 'p'],
        ) + word_if(a.auto_stop, seq!['-', 's'])) + (option_words(
            seq!['-', 'n'],
            match a.slideshow {
                Some(n) => Some(crate::numtext::decimal(n as nat)),
                None => None,
            },
        ) + seq![seq!['-', 'l'], layer_text(a.layer)]) + (word_if(a.no_mpv_config, "--no-mpv-config"@)
            + attached_word("--mpv-options="@, a.mpv_options) + attached_word("-Z="@, restore)) + (
        seq![seq!['-', '-']] + positional_word(a.output) + positional_word(a.video_path)),
{
    let v = repeated(seq!['-', 'v'], a.verbose as nat);
    let p = word_if(a.auto_pause, seq!['-', 'p']);
    let s = word_if(a.auto_stop, seq!['-', 's']);
    let n = option_words(
        seq!['-', 'n'],
        match a.slideshow {
            Some(n) => Some(crate::numtext::decimal(n as nat)),
            None => None,
        },
    );
    let l = seq![seq!['-', 'l'], layer_text(a.layer)];
    let c = word_if(a.no_mpv_config, "--no-mpv-config"@);
    let o = attached_word("--mpv-options="@, a.mpv_options);
    let z = attached_word("-Z="@, restore);
    let dd = seq![seq!['-', '-']];
    let out = positional_word(a.output);
    let vid = positional_word(a.video_path);
    assert(v + p + s + n + l =~= (v + p + s) + (n + l));
    assert(v + p + s + n + l + c + o + z =~= (v + p + s) + (n + l) + (c + o + z));
    assert(v + p + s + n + l + c + o + z + dd + out + vid =~= (v + p + s) + (n + l) + (c + o + z) + (
    dd + out + vid));
}

/// Handing over and reviving keep the command line: the words that
/// [`relaunch_arguments`] writes, after any program name, parse back to the
/// same arguments, except that `-d` and `-f` are dropped and the position to
/// restore is the one passed. This holds for every value, as long as a video
/// path comes with an output (as on every parsed command line).
pub proof fn law_relaunch_round_trip(a: ArgsView, restore: Option<Seq<char>>, program: Seq<char>)
    requires
        a.video_path is Some ==> a.output is Some,
    ensures
        parsed_args(seq![program] + relaunch_words(a, restore)) == Ok::<ArgsView, CliErrorView>(
            ArgsView { show_outputs: false, fork: false, restore_info: restore, ..a },
        ),
{
    let s0 = initial_scan();
    let slide = match a.slideshow {
        Some(n) => Some(crate::numtext::decimal(n as nat)),
        None => None,
    };
    let w1 = repeated(seq!['-', 'v'], a.verbose as nat) + word_if(a.auto_pause, seq!['-', 'p'])
        + word_if(a.auto_stop, seq!['-', 's']);
    let w2 = option_words(seq!['-', 'n'], slide) + seq![seq!['-', 'l'], layer_text(a.layer)];
    let w3 = word_if(a.no_mpv_config, "--no-mpv-config"@) + attached_word("--mpv-options="@, a.mpv_options)
        + attached_word("-Z="@, restore);
    let w4 = seq![seq!['-', '-']] + positional_word(a.output) + positional_word(a.video_path);
    let s1 = ScanState {
        args: ArgsView { verbose: a.verbose, auto_pause: a.auto_pause, auto_stop: a.auto_stop, ..s0.args },
        ..s0
    };
    let s2 = ScanState {
        args: ArgsView { slideshow: a.slideshow, layer: a.layer, ..s1.args },
        layer_given: true,
        ..s1
    };
    let s3 = ScanState {
        args: ArgsView {
            no_mpv_config: a.no_mpv_config,
            mpv_options: a.mpv_options,
            restore_info: restore,
            ..s2.args
        },
        ..s2
    };
    let s4 = ScanState {
        args: ArgsView { output: a.output, video_path: a.video_path, ..s3.args },
        positional_only: true,
        ..s3
    };
    assert(scans_to(s0, w1, s1)) by {
        reveal(scans_to);
        lemma_relaunch_switches(s0, a);
    }
    assert(scans_to(s1, w2, s2)) by {
        reveal(scans_to);
        lemma_relaunch_interval_layer(s1, a);
    }
    assert(scans_to(s2, w3, s3)) by {
        reveal(scans_to);
        lemma_relaunch_config_options(s2, a, restore);
    }
    assert(scans_to(s3, w4, s4)) by {
        reveal(scans_to);
        lemma_relaunch_positionals(s3, a);
    }
    lemma_scans_to_then(s0, w1, s1, w2, s2);
    lemma_scans_to_then(s0, w1 + w2, s2, w3, s3);
    lemma_scans_to_then(s0, w1 + w2 + w3, s3, w4, s4);
    let words = relaunch_words(a, restore);
    lemma_relaunch_words_grouped(a, restore);
    assert((seq![program] + words).skip(1) =~= words);
    assert(scan_words(s0, words) == Ok::<ScanState, CliErrorView>(s4)) by {
        reveal(scans_to);
    }
    assert(s4.args == ArgsView { show_outputs: false, fork: false, restore_info: restore, ..a });
}

} // verus!

verus! {

/// A long switch written `--name`, for a name without `=` that names the
/// switch `f`, is read as that switch.
proof fn lemma_scan_long_switch(st: ScanState, w: Seq<char>, f: FlagArg)
    requires
        between_words(st),
        w.len() >= 3,
        w[0] == '-',
        w[1] == '-',
        forall|i: int| 0 <= i < w.skip(2).len() ==> w.skip(2)[i] != '=',
        w.skip(2) != "help"@,
        w.skip(2) != "version"@,
        long_flag(w.skip(2)) == Some(f),
    ensures
        scan_word(st, w) == set_flag(st, f),
{
    assert(first_index_of(w.skip(2), '=') is None) by {
        reveal(first_index_of);
    }
    assert(w != seq!['-', '-']);
}

/// A short switch written `-c` is read as the switch its letter names.
proof fn lemma_scan_short_switch(st: ScanState, c: char, f: FlagArg)
    requires
        between_words(st),
        short_flag(c) == Some(f),
    ensures
        scan_word(st, seq!['-', c]) == set_flag(st, f),
{
    let w = seq!['-', c];
    assert(w.skip(1) =~= seq![c]);
    assert(seq![c].skip(1) =~= Seq::<char>::empty());
    assert(w != seq!['-', '-']) by {
        assert(w[1] != seq!['-', '-'][1]);
    }
    reveal_with_fuel(scan_short, 2);
}

/// Long and short switches mean the same: between words, `--help-output`
/// reads as `-d`, `--verbose` as `-v`, `--fork` as `-f`, `--auto-pause` as
/// `-p` and `--auto-stop` as `-s`; and each switch sets its own field and
/// nothing else (`--verbose` counts one more, up to 255).
pub proof fn law_switches_set_their_field(st: ScanState)
    requires
        st.pending is None,
        !st.positional_only,
    ensures
        scan_word(st, "--help-output"@) == scan_word(st, seq!['-', 'd']),
        scan_word(st, "--verbose"@) == scan_word(st, seq!['-', 'v']),
        scan_word(st, "--fork"@) == scan_word(st, seq!['-', 'f']),
        scan_word(st, "--auto-pause"@) == scan_word(st, seq!['-', 'p']),
        scan_word(st, "--auto-stop"@) == scan_word(st, seq!['-', 's']),
        !st.args.show_outputs ==> scan_word(st, "--help-output"@) == Ok::<ScanState, CliErrorView>(
            ScanState { args: ArgsView { show_outputs: true, ..st.args }, ..st },
        ),
        st.args.verbose < 255 ==> scan_word(st, "--verbose"@) == Ok::<ScanState, CliErrorView>(
            ScanState { args: ArgsView { verbose: (st.args.verbose + 1) as u8, ..st.args }, ..st },
        ),
        !st.args.fork ==> scan_word(st, "--fork"@) == Ok::<ScanState, CliErrorView>(
            ScanState { args: ArgsView { fork: true, ..st.args }, ..st },
        ),
        !st.args.auto_pause ==> scan_word(st, "--auto-pause"@) == Ok::<ScanState, CliErrorView>(
            ScanState { args: ArgsView { auto_pause: true, ..st.args }, ..st },
        ),
        !st.args.auto_stop ==> scan_word(st, "--auto-stop"@) == Ok::<ScanState, CliErrorView>(
            ScanState { args: ArgsView { auto_stop: true, ..st.args }, ..st },
        ),
        !st.args.no_mpv_config ==> scan_word(st, "--no-mpv-config"@) == Ok::<ScanState, CliErrorView>(
            ScanState { args: ArgsView { no_mpv_config: true, ..st.args }, ..st },
        ),
{
    reveal_strlit("--help-output");
    reveal_strlit("--verbose");
    reveal_strlit("--fork");
    reveal_strlit("--auto-pause");
    reveal_strlit("--auto-stop");
    reveal_strlit("--no-mpv-config");
    reveal_strlit("help-output");
    reveal_strlit("verbose");
    reveal_strlit("fork");
    reveal_strlit("auto-pause");
    reveal_strlit("auto-stop");
    reveal_strlit("no-mpv-config");
    reveal_strlit("help");
    reveal_strlit("version");
    let ho = "--help-output"@;
    let vb = "--verbose"@;
    let fk = "--fork"@;
    let ap = "--auto-pause"@;
    let ast = "--auto-stop"@;
    let nc = "--no-mpv-config"@;
    assert(ho.skip(2) =~= "help-output"@);
    assert(vb.skip(2) =~= "verbose"@);
    assert(fk.skip(2) =~= "fork"@);
    assert(ap.skip(2) =~= "auto-pause"@);
    assert(ast.skip(2) =~= "auto-stop"@);
    assert(nc.skip(2) =~= "no-mpv-config"@);
    assert("help-output"@.len() == 11 && "verbose"@.len() == 7 && "fork"@.len() == 4);
    assert("auto-pause"@.len() == 10 && "auto-stop"@.len() == 9 && "no-mpv-config"@.len() == 13);
    assert("help"@.len() == 4 && "version"@.len() == 7);
    assert("fork"@ != "help"@) by {
        assert("fork"@[0] != "help"@[0]);
    }
    assert("verbose"@ != "version"@) by {
        assert("verbose"@[3] != "version"@[3]);
    }
    assert forall|i: int| 0 <= i < ho.skip(2).len() implies ho.skip(2)[i] != '=' by {
        assert(0 <= i < 11);
    }
    assert forall|i: int| 0 <= i < vb.skip(2).len() implies vb.skip(2)[i] != '=' by {
        assert(0 <= i < 7);
    }
    assert forall|i: int| 0 <= i < fk.skip(2).len() implies fk.skip(2)[i] != '=' by {
        assert(0 <= i < 4);
    }
    assert forall|i: int| 0 <= i < ap.skip(2).len() implies ap.skip(2)[i] != '=' by {
        assert(0 <= i < 10);
    }
    assert forall|i: int| 0 <= i < ast.skip(2).len() implies ast.skip(2)[i] != '=' by {
        assert(0 <= i < 9);
    }
    assert forall|i: int| 0 <= i < nc.skip(2).len() implies nc.skip(2)[i] != '=' by {
        assert(0 <= i < 13);
    }
    lemma_scan_long_switch(st, ho, FlagArg::HelpOutput);
    lemma_scan_long_switch(st, vb, FlagArg::Verbose);
    lemma_scan_long_switch(st, fk, FlagArg::Fork);
    lemma_scan_long_switch(st, ap, FlagArg::AutoPause);
    lemma_scan_long_switch(st, ast, FlagArg::AutoStop);
    lemma_scan_long_switch(st, nc, FlagArg::NoMpvConfig);
    lemma_scan_short_switch(st, 'd', FlagArg::HelpOutput);
    lemma_scan_short_switch(st, 'v', FlagArg::Verbose);
    lemma_scan_short_switch(st, 'f', FlagArg::Fork);
    lemma_scan_short_switch(st, 'p', FlagArg::AutoPause);
    lemma_scan_short_switch(st, 's', FlagArg::AutoStop);
}

} // verus!
