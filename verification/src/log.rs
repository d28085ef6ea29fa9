//! The in-memory incident log.
use vstd::prelude::*;
use vstd::string::StringExecFns;

verus! {

/// What kind of incident the current log describes; it decides where the
/// log is saved.
#[derive(PartialEq, Eq, Structural, Clone, Copy, Debug)]
pub enum EventType {
    IspOutage,
    LocalOutage,
    Online,
}

/// The time-dependent texts that a step of the monitor may write into the
/// log: the current date and time, and how long ago the log was started, in
/// seconds, once in short and once in long notation.
pub struct Moment {
    pub now: String,
    pub log_age: String,
    pub log_age_precise: String,
}

/// A finished log, to be written to `file_name` under the log directory.
pub struct SavedLog {
    pub file_name: String,
    pub text: String,
}

/// Lines of text collected during an incident, not yet written anywhere.
pub struct Logger {
    logs: Vec<String>,
    log_dir_path: String,
    pub event_type: EventType,
}

/// `pattern` written `times` times in a row.
pub open spec fn repeat(pattern: Seq<char>, times: nat) -> Seq<char>
    decreases times,
{
    if times == 0 {
        Seq::empty()
    } else {
        repeat(pattern, (times - 1) as nat) + pattern
    }
}

/// The line that separates parts of one step of an incident.
pub open spec fn small_separator() -> Seq<char> {
    repeat("- "@, 20) + "-"@
}

/// The line that separates phases of an incident.
pub open spec fn large_separator() -> Seq<char> {
    repeat("=-"@, 20) + "="@
}

/// The lines that a large separator adds: a blank line, the rule, a blank line.
pub open spec fn large_separator_lines() -> Seq<Seq<char>> {
    seq!["\n"@, large_separator(), "\n"@]
}

/// The lines joined with a newline between each two of them.
pub open spec fn joined(lines: Seq<Seq<char>>) -> Seq<char>
    decreases lines.len(),
{
    if lines.len() == 0 {
        Seq::empty()
    } else if lines.len() == 1 {
        lines[0]
    } else {
        joined(lines.drop_last()) + "\n"@ + lines.last()
    }
}

/// The text of a saved log: the lines joined by newlines, with a final newline.
pub open spec fn log_text(lines: Seq<Seq<char>>) -> Seq<char> {
    joined(lines) + "\n"@
}

/// Every line followed by a newline, one after the other.
pub open spec fn terminated(lines: Seq<Seq<char>>) -> Seq<char>
    decreases lines.len(),
{
    if lines.len() == 0 {
        Seq::empty()
    } else {
        terminated(lines.drop_last()) + lines.last() + "\n"@
    }
}

/// The line with which a saved log states its own age.
pub open spec fn age_line(log_age: Seq<char>) -> Seq<char> {
    "Time from Log creation to saving: "@ + log_age + " seconds"@
}

/// The lines that closing a log adds after its last line.
pub open spec fn closing_lines(last_log: Seq<char>, log_age: Seq<char>) -> Seq<Seq<char>> {
    seq![last_log, small_separator(), age_line(log_age), small_separator()]
}

/// Where a log of the given kind, saved at `now`, goes under the log directory.
pub open spec fn log_file_name_spec(event_type: EventType, now: Seq<char>) -> Seq<char> {
    match event_type {
        EventType::IspOutage => "isp_outage/"@ + now + ".log"@,
        EventType::LocalOutage => "local_outage/"@ + now + ".log"@,
        EventType::Online => now + ".log"@,
    }
}

/// `pattern` repeated `times` times.
pub fn make_long_repeat(pattern: &str, times: usize) -> (result: String)
    ensures
        result@ == repeat(pattern@, times as nat),
{
    let mut result = String::new();
    let mut i: usize = 0;
    while i < times
        invariant
            i <= times,
            result@ == repeat(pattern@, i as nat),
        decreases times - i,
    {
        result.append(pattern);
        i = i + 1;
    }
    result
}

/// Terminating a sequence of lines is joining them and adding a final newline.
pub proof fn lemma_log_text_is_terminated(lines: Seq<Seq<char>>)
    requires
        lines.len() > 0,
    ensures
        log_text(lines) == terminated(lines),
    decreases lines.len(),
{
    if lines.len() == 1 {
        assert(lines.drop_last().len() == 0);
        assert(terminated(lines.drop_last()) == Seq::<char>::empty());
        assert(lines.last() == lines[0]);
        assert(terminated(lines) =~= lines[0] + "\n"@);
        assert(log_text(lines) =~= terminated(lines));
    } else {
        lemma_log_text_is_terminated(lines.drop_last());
        assert(log_text(lines) =~= joined(lines.drop_last()) + "\n"@ + lines.last() + "\n"@);
        assert(terminated(lines) =~= terminated(lines.drop_last()) + lines.last() + "\n"@);
    }
}

impl Logger {
    /// The lines collected so far.
    pub closed spec fn lines(&self) -> Seq<Seq<char>> {
        self.logs@.map_values(|l: String| l@)
    }

    /// The directory under which logs are saved.
    pub closed spec fn dir(&self) -> Seq<char> {
        self.log_dir_path@
    }

    /// The kind of incident the current log describes.
    pub closed spec fn event(&self) -> EventType {
        self.event_type
    }

    /// An empty log about a working connection, to be saved under `log_dir_path`.
    pub fn new(log_dir_path: String) -> (logger: Self)
        ensures
            logger.lines() == Seq::<Seq<char>>::empty(),
            logger.dir() == log_dir_path@,
            logger.event() == EventType::Online,
    {
        let logger = Logger { logs: Vec::new(), log_dir_path, event_type: EventType::Online };
        assert(logger.lines() =~= Seq::<Seq<char>>::empty());
        logger
    }

    /// The directory under which logs are saved.
    pub fn log_dir_path(&self) -> (dir: &String)
        ensures
            dir@ == self.dir(),
    {
        &self.log_dir_path
    }

    /// Records what kind of incident the current log describes.
    pub fn set_event_type(&mut self, event_type: EventType)
        ensures
            final(self).event() == event_type,
            final(self).lines() == old(self).lines(),
            final(self).dir() == old(self).dir(),
    {
        self.event_type = event_type;
    }

    /// Whether any line has been collected and not saved yet.
    pub fn has_unsaved_log(&self) -> (unsaved: bool)
        ensures
            unsaved == (self.lines().len() > 0),
    {
        self.logs.len() > 0
    }

    /// Appends one line.
    pub fn add_log_line(&mut self, log_line: String)
        ensures
            final(self).lines() == old(self).lines().push(log_line@),
            final(self).dir() == old(self).dir(),
            final(self).event() == old(self).event(),
    {
        let ghost line = log_line@;
        self.logs.push(log_line);
        assert(self.logs@.map_values(|l: String| l@) =~= old(self).logs@.map_values(|l: String| l@).push(line));
    }

    /// Appends a small separator line.
    pub fn add_small_separator(&mut self)
        ensures
            final(self).lines() == old(self).lines().push(small_separator()),
            final(self).dir() == old(self).dir(),
            final(self).event() == old(self).event(),
    {
        let line = make_long_repeat("- ", 20).concat("-");
        self.add_log_line(line);
    }

    /// Appends a large separator: a blank line, a rule, a blank line.
    pub fn add_large_separator(&mut self)
        ensures
            final(self).lines() == old(self).lines() + large_separator_lines(),
            final(self).dir() == old(self).dir(),
            final(self).event() == old(self).event(),
    {
        self.add_log_line(String::from_str("\n"));
        self.add_log_line(make_long_repeat("=-", 20).concat("="));
        self.add_log_line(String::from_str("\n"));
        assert(self.lines() =~= old(self).lines() + large_separator_lines());
    }

    /// The text of the log: its lines joined by newlines, with a final newline.
    pub fn make_log(&self) -> (text: String)
        ensures
            text@ == log_text(self.lines()),
    {
        let ghost lines = self.lines();
        let mut out = String::new();
        let mut i: usize = 0;
        while i < self.logs.len()
            invariant
                i <= self.logs.len(),
                lines == self.lines(),
                lines.len() == self.logs@.len(),
                out@ == joined(lines.take(i as int)),
            decreases self.logs.len() - i,
        {
            assert(lines[i as int] == self.logs@[i as int]@);
            if i > 0 {
                out.append("\n");
            }
            out.append(self.logs[i].as_str());
            assert(lines.take(i + 1).drop_last() =~= lines.take(i as int));
            i = i + 1;
        }
        assert(lines.take(i as int) =~= lines);
        out.append("\n");
        out
    }

    /// Where a log of the current kind, saved at `now`, goes under the log directory.
    pub fn log_file_name(&self, now: &str) -> (name: String)
        ensures
            name@ == log_file_name_spec(self.event(), now@),
    {
        match self.event_type {
            EventType::IspOutage => String::from_str("isp_outage/").concat(now).concat(".log"),
            EventType::LocalOutage => String::from_str("local_outage/").concat(now).concat(".log"),
            EventType::Online => String::from_str(now).concat(".log"),
        }
    }

    /// Closes the log: appends `last_log` and a footer that states the age of
    /// the log, hands back the finished log to be saved and starts an empty one.
    pub fn end_log(&mut self, last_log: String, moment: &Moment) -> (saved: SavedLog)
        ensures
            saved.text@ == log_text(old(self).lines() + closing_lines(last_log@, moment.log_age@)),
            saved.file_name@ == log_file_name_spec(old(self).event(), moment.now@),
            final(self).lines() == Seq::<Seq<char>>::empty(),
            final(self).dir() == old(self).dir(),
            final(self).event() == old(self).event(),
    {
        self.add_log_line(last_log);
        self.add_small_separator();
        let age = String::from_str("Time from Log creation to saving: ")
            .concat(moment.log_age.as_str()).concat(" seconds");
        self.add_log_line(age);
        self.add_small_separator();
        assert(self.lines() =~= old(self).lines() + closing_lines(last_log@, moment.log_age@));
        let saved = SavedLog {
            file_name: self.log_file_name(moment.now.as_str()),
            text: self.make_log(),
        };
        self.clear();
        saved
    }

    /// Drops every collected line.
    pub fn clear(&mut self)
        ensures
            final(self).lines() == Seq::<Seq<char>>::empty(),
            final(self).dir() == old(self).dir(),
            final(self).event() == old(self).event(),
    {
        self.logs.clear();
        assert(self.lines() =~= Seq::<Seq<char>>::empty());
    }

    /// Starts a new log: drops every collected line (the clock of the log is
    /// restarted by the caller).
    pub fn reset(&mut self)
        ensures
            final(self).lines() == Seq::<Seq<char>>::empty(),
            final(self).dir() == old(self).dir(),
            final(self).event() == old(self).event(),
    {
        self.clear();
    }
}

/// The decimal digit `d` as text.
pub open spec fn digit_text(d: nat) -> Seq<char> {
    if d == 0 { "0"@ }
    else if d == 1 { "1"@ }
    else if d == 2 { "2"@ }
    else if d == 3 { "3"@ }
    else if d == 4 { "4"@ }
    else if d == 5 { "5"@ }
    else if d == 6 { "6"@ }
    else if d == 7 { "7"@ }
    else if d == 8 { "8"@ }
    else { "9"@ }
}

/// `n` written in decimal.
pub open spec fn decimal(n: nat) -> Seq<char>
    decreases n,
{
    if n < 10 {
        digit_text(n)
    } else {
        decimal(n / 10) + digit_text(n % 10)
    }
}

/// `n` written in decimal.
pub fn decimal_text(n: u128) -> (text: String)
    ensures
        text@ == decimal(n as nat),
    decreases n,
{
    if n < 10 {
        String::from_str(digit_str(n))
    } else {
        decimal_text(n / 10).concat(digit_str(n % 10))
    }
}

fn digit_str(d: u128) -> (text: &'static str)
    requires
        d < 10,
    ensures
        text@ == digit_text(d as nat),
{
    if d == 0 { "0" }
    else if d == 1 { "1" }
    else if d == 2 { "2" }
    else if d == 3 { "3" }
    else if d == 4 { "4" }
    else if d == 5 { "5" }
    else if d == 6 { "6" }
    else if d == 7 { "7" }
    else if d == 8 { "8" }
    else { "9" }
}

/// A pattern repeated `times` times is `times` copies of it, back to back:
/// its length is `times` times the pattern's, and each character is the
/// pattern's character at the same offset within its copy.
pub proof fn lemma_repeat_is_copies(pattern: Seq<char>, times: nat)
    ensures
        repeat(pattern, times).len() == times * pattern.len(),
        forall|c: nat, k: int|
            c < times && 0 <= k < pattern.len() ==> #[trigger] repeat(pattern, times)[c * pattern.len() + k]
                == pattern[k],
    decreases times,
{
    if times > 0 {
        let prev = (times - 1) as nat;
        lemma_repeat_is_copies(pattern, prev);
        assert(times * pattern.len() == prev * pattern.len() + pattern.len()) by (nonlinear_arith)
            requires times == prev + 1;
        assert forall|c: nat, k: int| c < times && 0 <= k < pattern.len() implies #[trigger] repeat(pattern, times)[c
            * pattern.len() + k] == pattern[k] by {
            if c < prev {
                assert(c * pattern.len() + k < prev * pattern.len()) by (nonlinear_arith)
                    requires c < prev, 0 <= k < pattern.len();
                assert(repeat(pattern, prev)[c * pattern.len() + k] == pattern[k]);
            } else {
                assert(c == prev);
            }
        }
    } else {
        assert(times * pattern.len() == 0) by (nonlinear_arith)
            requires times == 0;
    }
}

/// The decimal text of `n` is a string of digits that writes `n`.
pub proof fn lemma_decimal_writes_value(n: nat)
    ensures
        crate::snmp::all_digits(decimal(n)),
        crate::snmp::digits_value(decimal(n)) == n,
        decimal(n).len() > 0,
    decreases n,
{
    reveal_strlit("0");
    reveal_strlit("1");
    reveal_strlit("2");
    reveal_strlit("3");
    reveal_strlit("4");
    reveal_strlit("5");
    reveal_strlit("6");
    reveal_strlit("7");
    reveal_strlit("8");
    reveal_strlit("9");
    let d = digit_text(n % 10);
    assert(d.len() == 1 && '0' <= d[0] <= '9' && d[0] as int - 48 == n % 10);
    if n < 10 {
        assert(n % 10 == n);
        assert(d.drop_last().len() == 0);
        assert(crate::snmp::digits_value(d) == crate::snmp::digits_value(d.drop_last()) * 10 + (d.last() as int - 48));
    } else {
        lemma_decimal_writes_value(n / 10);
        let prefix = decimal(n / 10);
        let whole = prefix + d;
        assert(whole == decimal(n));
        assert(whole.drop_last() =~= prefix);
        assert(whole.last() == d[0]);
        assert(crate::snmp::all_digits(whole)) by {
            assert forall|i: int| 0 <= i < whole.len() implies '0' <= #[trigger] whole[i] <= '9' by {
                if i < prefix.len() {
                    assert(whole[i] == prefix[i]);
                } else {
                    assert(whole[i] == d[0]);
                }
            }
        }
    }
}

} // verus!
