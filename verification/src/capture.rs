//! What a capture does besides settling its geometry: which tools it needs,
//! where the screenshot goes and under which name, which of the user's
//! choices win over the configuration, and the notification that follows.

use vstd::prelude::*;
use std::fmt::Write;
use crate::config::Config;
use crate::paths::{join_path, path_join};
use crate::text::{decimal, join, join_strings, law_parse_decimal_round_trip, opt_text, parse_i64, push_decimal, texts};

verus! {

/// Choices made for one capture that win over the configuration.
#[derive(Debug)]
pub struct Overrides {
    /// Copy to the clipboard only, saving nothing.
    pub clipboard_only: bool,
    /// Suppress the notification.
    pub silent: bool,
    /// Freeze the screen during selection.
    pub freeze: bool,
    /// Save into this directory in place of the configured one.
    pub output_dir: Option<String>,
    /// Save under this name in place of the dated one.
    pub filename: Option<String>,
}

/// Why a capture cannot go ahead.
#[derive(Debug)]
pub enum CaptureError {
    /// These required tools are not installed.
    MissingTools(Vec<String>),
    /// The date cannot be written in the configured format.
    InvalidDateFormat,
}

/// The text of an error.
pub open spec fn capture_error_text(e: CaptureError) -> Seq<char> {
    match e {
        CaptureError::MissingTools(tools) => "missing required tools: "@ + join(
            texts(tools@),
            ", "@,
        ),
        CaptureError::InvalidDateFormat => "invalid date format"@,
    }
}

impl CaptureError {
    /// The error's text.
    pub fn message(&self) -> (s: String)
        ensures
            s@ == capture_error_text(*self),
    {
        match self {
            CaptureError::MissingTools(tools) => {
                let mut s = String::from_str("missing required tools: ");
                let list = join_strings(tools, ", ");
                s.append(list.as_str());
                s
            },
            CaptureError::InvalidDateFormat => String::from_str("invalid date format"),
        }
    }
}

/// The tools a capture cannot do without.
pub open spec fn required_tools() -> Seq<Seq<char>> {
    seq!["grim"@, "slurp"@, "wl-copy"@, "hyprctl"@]
}

/// The names of the required tools.
pub fn required_tool_names() -> (r: Vec<String>)
    ensures
        texts(r@) == required_tools(),
{
    let mut r: Vec<String> = Vec::new();
    r.push(String::from_str("grim"));
    r.push(String::from_str("slurp"));
    r.push(String::from_str("wl-copy"));
    r.push(String::from_str("hyprctl"));
    assert(texts(r@) =~= required_tools());
    r
}

/// The tools, in order, that were not found.
pub open spec fn missing_tools(tools: Seq<Seq<char>>, found: Seq<bool>) -> Seq<Seq<char>>
    decreases tools.len(),
{
    if tools.len() == 0 {
        Seq::empty()
    } else {
        let rest = missing_tools(tools.drop_last(), found.drop_last());
        if found.last() {
            rest
        } else {
            rest.push(tools.last())
        }
    }
}

/// Checks that every tool was found (`found[i]` telling whether `tools[i]`
/// was): fails with the list of the missing ones, in order, where any is
/// missing.
pub fn check_deps(tools: &Vec<String>, found: &Vec<bool>) -> (r: Result<(), CaptureError>)
    requires
        tools.len() == found.len(),
    ensures
        r is Ok <==> missing_tools(texts(tools@), found@).len() == 0,
        r matches Err(CaptureError::MissingTools(m)) ==> texts(m@) == missing_tools(
            texts(tools@),
            found@,
        ),
        !(r matches Err(CaptureError::InvalidDateFormat)),
{
    let mut missing: Vec<String> = Vec::new();
    let mut i: usize = 0;
    while i < tools.len()
        invariant
            0 <= i <= tools.len(),
            tools.len() == found.len(),
            texts(missing@) == missing_tools(texts(tools@).take(i as int), found@.take(i as int)),
        decreases tools.len() - i,
    {
        assert(texts(tools@).take(i + 1).drop_last() =~= texts(tools@).take(i as int));
        assert(found@.take(i + 1).drop_last() =~= found@.take(i as int));
        if !found[i] {
            let ghost before = missing@;
            missing.push(tools[i].clone());
            assert(texts(missing@) =~= texts(before).push(tools@[i as int]@));
        }
        i = i + 1;
    }
    assert(texts(tools@).take(i as int) =~= texts(tools@));
    assert(found@.take(i as int) =~= found@);
    if missing.len() == 0 {
        Ok(())
    } else {
        Err(CaptureError::MissingTools(missing))
    }
}

/// The file name a capture is saved under when none is requested: the date
/// text followed by `_breadshot.png`.
pub open spec fn dated_filename(stamp: Seq<char>) -> Seq<char> {
    stamp + "_breadshot.png"@
}

/// A moment and the local time zone's offset from UTC at that moment: whole
/// seconds since the Unix epoch, nanoseconds past them, and the offset in
/// seconds east of UTC.
#[derive(Clone, Copy, Debug, PartialEq, Eq, Structural)]
pub struct Timestamp {
    pub seconds: i64,
    pub nanos: u32,
    pub utc_offset: i32,
}

/// What chrono writes for the moment `seconds`/`nanos` at the UTC offset
/// `utc_offset` in the `strftime` format `fmt`; `None` where the moment or the
/// offset is out of chrono's range, or the format holds an invalid specifier.
pub uninterp spec fn strftime(fmt: Seq<char>, seconds: i64, nanos: u32, utc_offset: i32) -> Option<
    Seq<char>,
>;

/// chrono's `DateTime::from_timestamp`, `with_timezone` to
/// `FixedOffset::east_opt(utc_offset)` and `format(fmt)`, written out: the
/// moment in the format, at that offset (which is how chrono writes a local
/// time). `None` where chrono refuses the moment or the offset, or writing
/// fails, which it does for a format with an invalid specifier. The text is
/// named, not stated.
#[verifier::external_body]
fn format_time(fmt: &str, seconds: i64, nanos: u32, utc_offset: i32) -> (r: Option<String>)
    ensures
        opt_text(r) == strftime(fmt@, seconds, nanos, utc_offset),
{
    let offset = chrono::FixedOffset::east_opt(utc_offset)?;
    let moment = chrono::DateTime::from_timestamp(seconds, nanos)?;
    let mut out = String::new();
    match write!(out, "{}", moment.with_timezone(&offset).format(fmt)) {
        Ok(()) => Some(out),
        Err(_) => None,
    }
}

/// The file name dated by `stamp`.
pub fn dated_filename_for(stamp: &str) -> (r: String)
    ensures
        r@ == dated_filename(stamp@),
{
    let mut r = String::from_str(stamp);
    r.append("_breadshot.png");
    r
}

/// The dated file name for the moment `now` in `date_format`, `None` where
/// the date cannot be written in that format.
pub open spec fn dated_filename_at(date_format: Seq<char>, now: Timestamp) -> Option<Seq<char>> {
    match strftime(date_format, now.seconds, now.nanos, now.utc_offset) {
        Some(stamp) => Some(dated_filename(stamp)),
        None => None,
    }
}

/// The name to save under: the requested one, else the local time `now`
/// written in `date_format` followed by `_breadshot.png`. Writing the date
/// fails for a format with an invalid specifier.
pub fn capture_filename(requested: Option<String>, date_format: &str, now: Timestamp) -> (r:
    Result<String, CaptureError>)
    ensures
        requested matches Some(f) ==> r matches Ok(n) && n@ == f@,
        requested is None ==> match dated_filename_at(date_format@, now) {
            Some(name) => r matches Ok(n) && n@ == name,
            None => r matches Err(CaptureError::InvalidDateFormat),
        },
{
    match requested {
        Some(f) => Ok(f),
        None => match format_time(date_format, now.seconds, now.nanos, now.utc_offset) {
            Some(stamp) => Ok(dated_filename_for(stamp.as_str())),
            None => Err(CaptureError::InvalidDateFormat),
        },
    }
}

/// What one capture does, with the configuration and the user's choices
/// combined.
#[derive(Debug)]
pub struct CapturePlan {
    /// The directory the screenshot is saved in.
    pub save_dir: String,
    /// The path of the screenshot.
    pub save_path: String,
    /// Whether the notification is suppressed.
    pub silent: bool,
    /// Whether the screen is frozen during selection.
    pub freeze: bool,
    /// Whether the screenshot only goes to the clipboard.
    pub clipboard_only: bool,
}

impl CapturePlan {
    /// Whether this plan combines `config` and `overrides` for a screenshot
    /// named `filename`: a requested directory wins over the configured one,
    /// the file goes in that directory (an absolute name standing for
    /// itself), and silence and freezing hold where either the user or the
    /// configuration asks for them.
    pub open spec fn combines(
        self,
        config: Config,
        overrides: Overrides,
        filename: Seq<char>,
    ) -> bool {
        let dir = match overrides.output_dir {
            Some(d) => d@,
            None => config.save_dir@,
        };
        &&& self.save_dir@ == dir
        &&& self.save_path@ == path_join(dir, filename)
        &&& self.silent == (overrides.silent || config.silent)
        &&& self.freeze == (overrides.freeze || config.freeze)
        &&& self.clipboard_only == overrides.clipboard_only
    }

    /// The plan for a screenshot named `filename`.
    pub fn new(config: &Config, overrides: Overrides, filename: &str) -> (p: CapturePlan)
        ensures
            p.combines(*config, overrides, filename@),
            p.silent == (overrides.silent || config.silent),
            p.freeze == (overrides.freeze || config.freeze),
            p.clipboard_only == overrides.clipboard_only,
            overrides.output_dir matches Some(d) ==> p.save_dir@ == d@,
            overrides.output_dir is None ==> p.save_dir@ == config.save_dir@,
    {
        let save_dir = match overrides.output_dir {
            Some(d) => d,
            None => config.save_dir.clone(),
        };
        let save_path = join_path(save_dir.as_str(), filename);
        CapturePlan {
            save_dir,
            save_path,
            silent: overrides.silent || config.silent,
            freeze: overrides.freeze || config.freeze,
            clipboard_only: overrides.clipboard_only,
        }
    }

    /// The notification text: the clipboard where nothing is saved, else the
    /// saved path in italics.
    pub open spec fn message_text(self) -> Seq<char> {
        if self.clipboard_only {
            "Copied to clipboard"@
        } else {
            "Saved to <i>"@ + self.save_path@ + "</i>"@
        }
    }

    /// The notification text.
    pub fn message(&self) -> (s: String)
        ensures
            s@ == self.message_text(),
    {
        if self.clipboard_only {
            String::from_str("Copied to clipboard")
        } else {
            let mut s = String::from_str("Saved to <i>");
            s.append(self.save_path.as_str());
            s.append("</i>");
            s
        }
    }

    /// The `notify-send` arguments: title `Screenshot`, the message, the
    /// display time in milliseconds and the application name, then the saved
    /// file as icon where it exists.
    pub open spec fn notification_args_for(self, timeout: u32, icon_exists: bool) -> Seq<
        Seq<char>,
    > {
        seq!["Screenshot"@, self.message_text(), "-t"@, decimal(timeout as int), "-a"@, "breadshot"@]
            + if icon_exists {
            seq!["-i"@, self.save_path@]
        } else {
            Seq::empty()
        }
    }

    /// The `notify-send` arguments.
    pub fn notification_args(&self, timeout: u32, icon_exists: bool) -> (r: Vec<String>)
        ensures
            texts(r@) == self.notification_args_for(timeout, icon_exists),
    {
        let mut r: Vec<String> = Vec::new();
        r.push(String::from_str("Screenshot"));
        r.push(self.message());
        r.push(String::from_str("-t"));
        let mut t = String::new();
        push_decimal(&mut t, timeout as i128);
        r.push(t);
        r.push(String::from_str("-a"));
        r.push(String::from_str("breadshot"));
        if icon_exists {
            r.push(String::from_str("-i"));
            r.push(self.save_path.clone());
        }
        assert(texts(r@) =~= self.notification_args_for(timeout, icon_exists));
        r
    }
}

/// The plan for a capture at the local time `now`: the screenshot is named as
/// `capture_filename` gives, and placed and configured as `CapturePlan::new`
/// says.
pub fn plan_capture(config: &Config, overrides: Overrides, now: Timestamp) -> (r: Result<
    CapturePlan,
    CaptureError,
>)
    ensures
        match overrides.filename {
            Some(f) => r matches Ok(p) && p.combines(*config, overrides, f@),
            None => match dated_filename_at(config.date_format@, now) {
                Some(name) => r matches Ok(p) && p.combines(*config, overrides, name),
                None => r matches Err(CaptureError::InvalidDateFormat),
            },
        },
{
    let requested = match &overrides.filename {
        Some(f) => Some(f.clone()),
        None => None,
    };
    let name = capture_filename(requested, config.date_format.as_str(), now)?;
    Ok(CapturePlan::new(config, overrides, name.as_str()))
}

/// A check of the tools passes exactly when every tool was found; each
/// tool that was not found is among the missing ones, and each missing one
/// is a tool that was not found.
pub proof fn law_missing_tools_are_those_not_found(tools: Seq<Seq<char>>, found: Seq<bool>)
    requires
        tools.len() == found.len(),
    ensures
        missing_tools(tools, found).len() == 0 <==> forall|i: int|
            0 <= i < found.len() ==> #[trigger] found[i],
        forall|i: int|
            0 <= i < tools.len() && !found[i] ==> missing_tools(tools, found).contains(
                #[trigger] tools[i],
            ),
        forall|t: Seq<char>|
            missing_tools(tools, found).contains(t) ==> exists|i: int|
                0 <= i < tools.len() && !found[i] && #[trigger] tools[i] == t,
    decreases tools.len(),
{
    if tools.len() > 0 {
        let ft = tools.drop_last();
        let ff = found.drop_last();
        law_missing_tools_are_those_not_found(ft, ff);
        let rest = missing_tools(ft, ff);
        let n = tools.len() - 1;
        assert forall|i: int| 0 <= i < tools.len() && !found[i] implies missing_tools(
            tools,
            found,
        ).contains(#[trigger] tools[i]) by {
            if i < n {
                assert(ff[i] == found[i]);
                assert(rest.contains(ft[i]));
                if !found.last() {
                    let j = choose|j: int| 0 <= j < rest.len() && rest[j] == ft[i];
                    assert(rest.push(tools.last())[j] == ft[i]);
                }
            } else {
                assert(rest.push(tools.last())[rest.len() as int] == tools[i]);
            }
        }
        assert forall|t: Seq<char>| missing_tools(tools, found).contains(t) implies exists|i: int|
            0 <= i < tools.len() && !found[i] && #[trigger] tools[i] == t by {
            if rest.contains(t) {
                let i = choose|i: int| 0 <= i < ft.len() && !ff[i] && #[trigger] ft[i] == t;
                assert(tools[i] == t && !found[i]);
            } else {
                assert(!found.last() && t == tools.last());
                assert(tools[n] == t);
            }
        }
        if forall|i: int| 0 <= i < found.len() ==> #[trigger] found[i] {
            assert forall|i: int| 0 <= i < ff.len() implies #[trigger] ff[i] by {
                assert(found[i]);
            }
            assert(found[n]);
        }
        if missing_tools(tools, found).len() == 0 {
            assert(found.last());
            assert forall|i: int| 0 <= i < found.len() implies #[trigger] found[i] by {
                if i < n {
                    assert(ff[i] == found[i]);
                }
            }
        }
    }
}

/// The user's flags and the configuration's both count: a plan is silent
/// exactly when the user or the configuration asks for silence, freezes
/// exactly when either asks for freezing, copies only when the user asks, and
/// saves into the requested directory where there is one, else the
/// configured one.
pub proof fn law_plan_honours_flags(
    p: CapturePlan,
    config: Config,
    overrides: Overrides,
    filename: Seq<char>,
)
    requires
        p.combines(config, overrides, filename),
    ensures
        config.silent ==> p.silent,
        overrides.silent ==> p.silent,
        p.silent ==> config.silent || overrides.silent,
        config.freeze ==> p.freeze,
        overrides.freeze ==> p.freeze,
        p.freeze ==> config.freeze || overrides.freeze,
        p.clipboard_only == overrides.clipboard_only,
        overrides.output_dir matches Some(d) ==> p.save_dir@ == d@,
        overrides.output_dir is None ==> p.save_dir@ == config.save_dir@,
{
}

/// A plain file name (no `/`, not empty) lands directly in the save
/// directory: the path is the directory, a separator where it has none at
/// its end, and the name.
pub proof fn law_plan_path_in_save_dir(
    p: CapturePlan,
    config: Config,
    overrides: Overrides,
    filename: Seq<char>,
)
    requires
        p.combines(config, overrides, filename),
        filename.len() > 0,
        forall|i: int| 0 <= i < filename.len() ==> filename[i] != '/',
    ensures
        p.save_path@.len() >= filename.len(),
        p.save_path@.skip(p.save_path@.len() - filename.len()) == filename,
        p.save_path@.take(p.save_dir@.len() as int) == p.save_dir@,
        p.save_path@.len() == p.save_dir@.len() + filename.len() || p.save_path@.len()
            == p.save_dir@.len() + 1 + filename.len(),
{
    assert(filename[0] != '/');
    let d = p.save_dir@;
    if d.len() > 0 && d.last() != '/' {
        assert((d + seq!['/'] + filename).skip((d.len() + 1) as int) =~= filename);
        assert((d + seq!['/'] + filename).take(d.len() as int) =~= d);
    } else {
        assert((d + filename).skip(d.len() as int) =~= filename);
        assert((d + filename).take(d.len() as int) =~= d);
    }
}

/// The notification's arguments: the title first, the message second, the
/// display time (which reads back as the configured number of
/// milliseconds) after `-t`, and the saved file after `-i` exactly when it
/// exists; a file that does not exist adds nothing.
pub proof fn law_notification_args(p: CapturePlan, timeout: u32, icon_exists: bool)
    ensures
        p.notification_args_for(timeout, icon_exists).len() == if icon_exists {
            8int
        } else {
            6int
        },
        p.notification_args_for(timeout, icon_exists)[0] == "Screenshot"@,
        p.notification_args_for(timeout, icon_exists)[1] == p.message_text(),
        p.notification_args_for(timeout, icon_exists)[2] == "-t"@,
        parse_i64(p.notification_args_for(timeout, icon_exists)[3]) == Some(timeout as i64),
        icon_exists ==> p.notification_args_for(timeout, icon_exists)[6] == "-i"@ && p.notification_args_for(timeout, icon_exists)[7] == p.save_path@,
        p.notification_args_for(timeout, false) == p.notification_args_for(timeout, true).take(6),
{
    law_parse_decimal_round_trip(timeout as i64);
    assert(p.notification_args_for(timeout, false) =~= p.notification_args_for(timeout, true).take(
        6,
    ));
}

/// The message names the saved file unless the screenshot only went to the
/// clipboard.
pub proof fn law_message_names_saved_file(p: CapturePlan)
    ensures
        p.clipboard_only ==> p.message_text() == "Copied to clipboard"@,
        !p.clipboard_only ==> exists|pre: Seq<char>, post: Seq<char>| #[trigger] (pre + p.save_path@ + post) == p.message_text() && pre == "Saved to <i>"@ && post == "</i>"@,
{
    if !p.clipboard_only {
        assert(("Saved to <i>"@ + p.save_path@ + "</i>"@) == p.message_text());
    }
}

} // verus!
