//! Sorting the files of a directory into subdirectories: by custom rule, by
//! file type or by date.
//!
//! The caller lists the directory and hands in one [`FileEntry`] per file.
//! [`run`] answers with the moves to make; the caller creates the target
//! directories and moves the files.

use crate::config::{OrganizeRule, OrganizeRuleView};
use crate::indexed::{lemma_picked, positions};
use crate::text::{decimal, decimal_text, same_text, signed_decimal, signed_decimal_text};
use vstd::prelude::*;
use vstd::string::*;

verus! {

/// A file of the directory that is being organized.
#[derive(Debug)]
pub struct FileEntry {
    /// Its name inside the directory.
    pub name: String,
    /// When it was last modified, in seconds since 1970-01-01 00:00:00 UTC;
    /// `None` where that could not be read.
    pub modified: Option<i64>,
}

/// A [`FileEntry`] as a plain value.
pub struct FileEntryView {
    pub name: Seq<char>,
    pub modified: Option<i64>,
}

impl View for FileEntry {
    type V = FileEntryView;

    open spec fn view(&self) -> FileEntryView {
        FileEntryView { name: self.name@, modified: self.modified }
    }
}

impl DeepView for FileEntry {
    type V = FileEntryView;

    open spec fn deep_view(&self) -> FileEntryView {
        self@
    }
}

/// Why a file is moved.
#[derive(Clone, Copy, Debug, PartialEq, Eq, Structural)]
pub enum MoveKind {
    /// A custom rule matched its name.
    Rule,
    /// It is filed under its extension.
    Type,
    /// It is filed under the month in which it was last modified.
    Date,
}

/// One file to move into a subdirectory, under its own name.
#[derive(Debug)]
pub struct Move {
    /// The position of the file among the entries handed in.
    pub file: usize,
    /// The directory it goes to, as a path below the organized directory.
    pub target_dir: String,
    pub kind: MoveKind,
}

/// A [`Move`] as a plain value.
pub struct MoveView {
    pub file: int,
    pub target_dir: Seq<char>,
    pub kind: MoveKind,
}

impl View for Move {
    type V = MoveView;

    open spec fn view(&self) -> MoveView {
        MoveView { file: self.file as int, target_dir: self.target_dir@, kind: self.kind }
    }
}

impl DeepView for Move {
    type V = MoveView;

    open spec fn deep_view(&self) -> MoveView {
        self@
    }
}

/// Whether `glob::Pattern::new` accepts `pattern` as a glob.
pub uninterp spec fn glob_compiles(pattern: Seq<char>) -> bool;

/// Whether the glob `pattern` matches the whole of `name`, as
/// `glob::Pattern::matches` reports it with the crate's default options.
pub uninterp spec fn glob_matches(pattern: Seq<char>, name: Seq<char>) -> bool;

/// Compiles `pattern` with `glob::Pattern::new` and asks
/// `glob::Pattern::matches` whether it matches `name`; `None` where the
/// pattern is no glob.
///
/// Claimed of the crate: whether a pattern compiles depends on the pattern
/// alone, and whether it matches on the pattern and the name alone.
#[verifier::external_body]
fn glob_match(pattern: &str, name: &str) -> (r: Option<bool>)
    ensures
        r == if glob_compiles(pattern@) {
            Some(glob_matches(pattern@, name@))
        } else {
            None::<bool>
        },
{
    match glob::Pattern::new(pattern) {
        Ok(compiled) => Some(compiled.matches(name)),
        Err(_) => None,
    }
}

/// Whether a rule applies to a file name: its pattern is a glob and matches
/// the name. A rule whose pattern is no glob applies to nothing.
pub open spec fn applies(rule: OrganizeRuleView, name: Seq<char>) -> bool {
    glob_compiles(rule.pattern) && glob_matches(rule.pattern, name)
}

/// Whether `r` is the first rule that applies to `name`.
pub open spec fn is_first_match(rules: Seq<OrganizeRuleView>, name: Seq<char>, r: usize) -> bool {
    &&& r < rules.len()
    &&& applies(rules[r as int], name)
    &&& forall|earlier: int| 0 <= earlier < r ==> !applies(#[trigger] rules[earlier], name)
}

/// The rule that decides where `name` goes: the first that applies to it, if
/// any does.
pub open spec fn first_match(rules: Seq<OrganizeRuleView>, name: Seq<char>) -> Option<usize> {
    if exists|r: usize| is_first_match(rules, name, r) {
        Some(choose|r: usize| is_first_match(rules, name, r))
    } else {
        None
    }
}

/// For each file, the rule that decides where it goes.
pub open spec fn chosen_rules(files: Seq<FileEntryView>, rules: Seq<OrganizeRuleView>) -> Seq<
    Option<usize>,
> {
    files.map_values(|file: FileEntryView| first_match(rules, file.name))
}

/// For a position, the move that the chosen rule asks for, or `None` where no
/// rule was chosen, or one that is not among the rules.
pub open spec fn rule_move_at(chosen: Seq<Option<usize>>, rules: Seq<OrganizeRuleView>) -> spec_fn(
    int,
) -> Option<MoveView> {
    |i: int|
        match chosen[i] {
            Some(r) => if r < rules.len() {
                Some(
                    MoveView {
                        file: i,
                        target_dir: rules[r as int].target_dir,
                        kind: MoveKind::Rule,
                    },
                )
            } else {
                None
            },
            None => None,
        }
}

/// The moves that the chosen rules ask for: one for each file for which a
/// rule was chosen, in the order of the files.
pub open spec fn moves_by_rule(chosen: Seq<Option<usize>>, rules: Seq<OrganizeRuleView>) -> Seq<
    MoveView,
> {
    positions(chosen.len()).filter_map(rule_move_at(chosen, rules))
}

/// The moves that the custom rules ask for among `files`.
pub open spec fn rule_moves(files: Seq<FileEntryView>, rules: Seq<OrganizeRuleView>) -> Seq<
    MoveView,
> {
    moves_by_rule(chosen_rules(files, rules), rules)
}

/// Whether position `i` holds the last dot of `name`.
pub open spec fn is_last_dot(name: Seq<char>, i: int) -> bool {
    &&& 0 <= i < name.len()
    &&& name[i] == '.'
    &&& forall|j: int| i < j < name.len() ==> name[j] != '.'
}

/// The extension of a file name: what follows its last dot. A name without a
/// dot has none, nor has a name whose last dot is its first character, nor
/// the name `..`. A name that ends in a dot has the empty extension.
pub open spec fn extension(name: Seq<char>) -> Option<Seq<char>> {
    if name != ".."@ && exists|i: int| 0 < i && is_last_dot(name, i) {
        let i = choose|i: int| 0 < i && is_last_dot(name, i);
        Some(name.skip(i + 1))
    } else {
        None
    }
}

/// The directory that a file goes to by its type: the one named after its
/// extension, or `other` for a file without one.
pub open spec fn type_dir(name: Seq<char>) -> Seq<char> {
    match extension(name) {
        Some(e) => e,
        None => "other"@,
    }
}

/// The moves that file every file under its type, in the order of the files.
pub open spec fn type_moves(files: Seq<FileEntryView>) -> Seq<MoveView> {
    Seq::new(
        files.len(),
        |i: int| MoveView { file: i, target_dir: type_dir(files[i].name), kind: MoveKind::Type },
    )
}

/// Whether `rule` applies to the file name `name`.
pub fn rule_applies(rule: &OrganizeRule, name: &str) -> (r: bool)
    ensures
        r == applies(rule@, name@),
{
    match glob_match(rule.pattern.as_str(), name) {
        Some(matched) => matched,
        None => false,
    }
}

/// Finds the rule that decides where `name` goes: the first one that applies.
pub fn choose_rule(rules: &Vec<OrganizeRule>, name: &str) -> (chosen: Option<usize>)
    ensures
        chosen == first_match(rules.deep_view(), name@),
{
    let ghost all = rules.deep_view();
    let mut r: usize = 0;
    while r < rules.len()
        invariant
            r <= rules.len(),
            all == rules.deep_view(),
            forall|earlier: int| 0 <= earlier < r ==> !applies(#[trigger] all[earlier], name@),
        decreases rules.len() - r,
    {
        assert(all[r as int] == rules[r as int]@);
        if rule_applies(&rules[r], name) {
            assert(is_first_match(all, name@, r));
            return Some(r);
        }
        r = r + 1;
    }
    None
}

/// Lists the moves that the chosen rules ask for, given for each file the
/// rule that was chosen for it. A choice that is not among the rules moves
/// nothing.
pub fn plan_by_rule(chosen: &Vec<Option<usize>>, rules: &Vec<OrganizeRule>) -> (moves: Vec<Move>)
    ensures
        moves.deep_view() == moves_by_rule(chosen@, rules.deep_view()),
{
    let ghost each = rule_move_at(chosen@, rules.deep_view());
    let ghost all = positions(chosen@.len());
    let mut moves: Vec<Move> = Vec::new();
    let mut i: usize = 0;
    assert(moves.deep_view() =~= all.take(0).filter_map(each));
    while i < chosen.len()
        invariant
            i <= chosen.len(),
            each == rule_move_at(chosen@, rules.deep_view()),
            all == positions(chosen@.len()),
            moves.deep_view() == all.take(i as int).filter_map(each),
        decreases chosen.len() - i,
    {
        proof {
            all.lemma_filter_map_take_succ(each, i as int);
        }
        match chosen[i] {
            Some(r) => {
                if r < rules.len() {
                    let ghost before = moves.deep_view();
                    let made = Move {
                        file: i,
                        target_dir: rules[r].target_dir.clone(),
                        kind: MoveKind::Rule,
                    };
                    moves.push(made);
                    assert(rules.deep_view()[r as int] == rules[r as int]@);
                    assert(moves.deep_view() =~= before + seq![made@]);
                }
            },
            None => {},
        }
        i = i + 1;
    }
    assert(all.take(i as int) =~= all);
    moves
}

/// The extension of the file name `name`.
pub fn extension_of(name: &str) -> (found: Option<String>)
    ensures
        found.deep_view() == extension(name@),
{
    let len = name.unicode_len();
    let mut last: Option<usize> = None;
    let mut i: usize = 0;
    for c in it: name.chars()
        invariant
            len == name@.len(),
            it.seq() == name@,
            i == it.index(),
            i <= len,
            last matches Some(p) ==> p < i && is_last_dot(name@.take(i as int), p as int),
            last is None ==> forall|j: int| 0 <= j < i ==> name@[j] != '.',
    {
        if c == '.' {
            last = Some(i);
        }
        i = i + 1;
    }
    assert(name@.take(i as int) =~= name@);
    match last {
        Some(p) => {
            if p > 0 && !same_text(name, "..") {
                assert(0 < p && is_last_dot(name@, p as int));
                let tail = name.substring_char(p + 1, len);
                let found = String::from_str(tail);
                proof {
                    let q = choose|q: int| 0 < q && is_last_dot(name@, q);
                    assert(q == p);
                    assert(found@ =~= name@.skip(p + 1));
                }
                Some(found)
            } else {
                assert(forall|q: int| 0 < q && is_last_dot(name@, q) ==> q == p);
                None
            }
        },
        None => None,
    }
}

/// Files every file under its type: into the directory named after its
/// extension, or into `other` where it has none.
pub fn organize_by_type(files: &Vec<FileEntry>) -> (moves: Vec<Move>)
    ensures
        moves.deep_view() == type_moves(files.deep_view()),
{
    let mut moves: Vec<Move> = Vec::new();
    let mut i: usize = 0;
    while i < files.len()
        invariant
            i <= files.len(),
            moves.len() == i,
            forall|k: int|
                0 <= k < i ==> (#[trigger] moves[k])@ == (MoveView {
                    file: k,
                    target_dir: type_dir(files[k]@.name),
                    kind: MoveKind::Type,
                }),
        decreases files.len() - i,
    {
        let target_dir = match extension_of(files[i].name.as_str()) {
            Some(e) => e,
            None => String::from_str("other"),
        };
        moves.push(Move { file: i, target_dir, kind: MoveKind::Type });
        i = i + 1;
    }
    assert(moves.deep_view() =~= type_moves(files.deep_view()));
    moves
}

/// The whole seconds from 1970-01-01 00:00:00 UTC to a point in time that
/// lies `seconds` seconds and `nanos` nanoseconds after it, or before it
/// where `before` is set, rounded down to the second that holds it.
pub open spec fn whole_seconds(before: bool, seconds: u64, nanos: u32) -> int {
    if !before {
        seconds as int
    } else if nanos == 0 {
        -(seconds as int)
    } else {
        -(seconds as int) - 1
    }
}

/// Turns the distance of a point in time from 1970-01-01 00:00:00 UTC, as a
/// system clock reports it, into a time stamp for a [`FileEntry`]; `None`
/// where the time stamp does not fit.
pub fn unix_seconds(before: bool, seconds: u64, nanos: u32) -> (stamp: Option<i64>)
    ensures
        stamp == if i64::MIN <= whole_seconds(before, seconds, nanos) <= i64::MAX {
            Some(whole_seconds(before, seconds, nanos) as i64)
        } else {
            None
        },
{
    if !before {
        if seconds <= i64::MAX as u64 {
            Some(seconds as i64)
        } else {
            None
        }
    } else if seconds <= i64::MAX as u64 {
        let back: i64 = -(seconds as i64);
        if nanos == 0 {
            Some(back)
        } else {
            Some(back - 1)
        }
    } else if seconds == i64::MAX as u64 + 1 && nanos == 0 {
        Some(i64::MIN)
    } else {
        None
    }
}

/// Time stamps no further than this many seconds from 1970-01-01 00:00:00
/// UTC, a little over three thousand years either way, always have a local
/// date.
pub const DATED_SPAN: i64 = 100_000_000_000;

/// The seconds of a day; a time zone is less than a day away from UTC.
pub const DAY: i64 = 86_400;

/// The year and the month, from 1 to 12, of the day of the Gregorian calendar
/// that holds the given second, counted from 1970-01-01 00:00:00, as
/// `chrono::DateTime::from_timestamp` and `chrono::Datelike` give them;
/// `None` for a second beyond the dates that the crate can hold.
pub uninterp spec fn calendar_month(seconds: i64) -> Option<(i32, u32)>;

/// Reads the year and the month of a time stamp in UTC off the date that
/// `chrono::DateTime::from_timestamp` makes of it, with
/// `chrono::Datelike::year` and `chrono::Datelike::month`.
///
/// Claimed of the crate: the date depends on the time stamp alone, months
/// are numbered from 1 to 12, and a time stamp within a day of
/// [`DATED_SPAN`] lies well inside the range of dates that the crate can
/// hold.
#[verifier::external_body]
fn utc_year_month(seconds: i64) -> (r: Option<(i32, u32)>)
    ensures
        r == calendar_month(seconds),
        -DATED_SPAN - DAY <= seconds <= DATED_SPAN + DAY ==> r is Some,
        r matches Some((_, month)) ==> 1 <= month <= 12,
{
    match chrono::DateTime::from_timestamp(seconds, 0) {
        Some(utc) => Some((chrono::Datelike::year(&utc), chrono::Datelike::month(&utc))),
        None => None,
    }
}

/// Asks for the offset of the machine's local time from UTC at a time stamp,
/// in seconds: the time stamp is made a date with
/// `chrono::DateTime::from_timestamp`, moved to the local zone with
/// `chrono::DateTime::with_timezone` and `chrono::Local`, and the offset read
/// with `chrono::FixedOffset::local_minus_utc`.
///
/// The offset depends on the machine's time zone, so only this is claimed of
/// the crate: an offset is less than a day, and a time stamp within
/// [`DATED_SPAN`] has one.
#[verifier::external_body]
fn local_offset(seconds: i64) -> (r: Option<i32>)
    ensures
        -DATED_SPAN <= seconds <= DATED_SPAN ==> r is Some,
        r matches Some(offset) ==> -DAY < offset < DAY,
{
    match chrono::DateTime::from_timestamp(seconds, 0) {
        Some(utc) => Some(utc.with_timezone(&chrono::Local).offset().local_minus_utc()),
        None => None,
    }
}

/// The calendar month of a time stamp in a zone that is `offset` seconds
/// ahead of UTC.
pub open spec fn month_at(seconds: i64, offset: int) -> Option<(i32, u32)> {
    if i64::MIN <= seconds + offset <= i64::MAX {
        calendar_month((seconds + offset) as i64)
    } else {
        None
    }
}

/// Whether `date` is the calendar month of a time stamp in some time zone.
pub open spec fn is_local_month(seconds: i64, date: (i32, u32)) -> bool {
    exists|offset: int| -DAY < offset < DAY && #[trigger] month_at(seconds, offset) == Some(date)
}

/// The year and the month of a time stamp in the machine's local time; `None`
/// for a time stamp beyond the dates that can be held.
fn local_year_month(seconds: i64) -> (r: Option<(i32, u32)>)
    ensures
        -DATED_SPAN <= seconds <= DATED_SPAN ==> r is Some,
        r matches Some(date) ==> is_local_month(seconds, date) && 1 <= date.1 <= 12,
{
    match local_offset(seconds) {
        Some(offset) => {
            let shift: i64 = offset as i64;
            if (shift >= 0 && seconds > i64::MAX - shift) || (shift < 0 && seconds < i64::MIN
                - shift) {
                None
            } else {
                let r = utc_year_month(seconds + shift);
                assert(r == month_at(seconds, offset as int));
                r
            }
        },
        None => None,
    }
}

/// The directory that a file goes to by its date: the year and the month in
/// which it was last modified, joined by an underscore, neither padded.
pub open spec fn date_dir(year: i32, month: u32) -> Seq<char> {
    signed_decimal(year as int) + "_"@ + decimal(month as nat)
}

/// For a position, the move that files the file there under its date, or
/// `None` where it has no date.
pub open spec fn date_move_at(dates: Seq<Option<(i32, u32)>>) -> spec_fn(int) -> Option<MoveView> {
    |i: int|
        match dates[i] {
            Some((year, month)) => Some(
                MoveView { file: i, target_dir: date_dir(year, month), kind: MoveKind::Date },
            ),
            None => None,
        }
}

/// The moves that file every dated file under its date, in the order of the
/// files; `dates` holds for each file the local year and month in which it
/// was last modified.
pub open spec fn date_moves(dates: Seq<Option<(i32, u32)>>) -> Seq<MoveView> {
    positions(dates.len()).filter_map(date_move_at(dates))
}

/// Whether `dates` can be the local dates of `files`: one for each file; none
/// for a file whose time stamp could not be read; one for every file whose
/// time stamp lies within [`DATED_SPAN`]; and each the calendar month of its
/// file's time stamp in some time zone, with a month from 1 to 12.
pub open spec fn dates_fit(files: Seq<FileEntryView>, dates: Seq<Option<(i32, u32)>>) -> bool {
    &&& dates.len() == files.len()
    &&& forall|i: int|
        0 <= i < files.len() ==> match (#[trigger] files[i]).modified {
            Some(seconds) => {
                &&& -DATED_SPAN <= seconds <= DATED_SPAN ==> dates[i] is Some
                &&& dates[i] matches Some(date) ==> is_local_month(seconds, date) && 1 <= date.1
                    <= 12
            },
            None => dates[i] is None,
        }
}

/// Whether the files are filed by date: no custom rule applies to any file,
/// and the mode is `date`.
pub open spec fn files_by_date(
    files: Seq<FileEntryView>,
    mode: Seq<char>,
    rules: Seq<OrganizeRuleView>,
) -> bool {
    rule_moves(files, rules).len() == 0 && mode == "date"@
}

/// The moves to make in a directory, where `dates` holds the local dates of
/// the files.
///
/// Where a custom rule applies to at least one file, the rules alone decide:
/// the files that a rule matched are moved, and all others stay, whatever the
/// mode. Only where no rule applies to any file are the files filed by date,
/// in the mode `date`, or by type, in every other mode.
pub open spec fn planned(
    files: Seq<FileEntryView>,
    mode: Seq<char>,
    rules: Seq<OrganizeRuleView>,
    dates: Seq<Option<(i32, u32)>>,
) -> Seq<MoveView> {
    if rule_moves(files, rules).len() > 0 {
        rule_moves(files, rules)
    } else if mode == "date"@ {
        date_moves(dates)
    } else {
        type_moves(files)
    }
}

/// Writes the name of the directory for a year and a month.
pub fn date_dir_name(year: i32, month: u32) -> (name: String)
    ensures
        name@ == date_dir(year, month),
{
    let mut name = signed_decimal_text(year);
    name.append("_");
    name.append(decimal_text(month as u64).as_str());
    name
}

/// Lists the moves that file every dated file under its date, given for each
/// file the local year and month in which it was last modified.
pub fn plan_by_date(dates: &Vec<Option<(i32, u32)>>) -> (moves: Vec<Move>)
    ensures
        moves.deep_view() == date_moves(dates@),
{
    let ghost each = date_move_at(dates@);
    let ghost all = positions(dates@.len());
    let mut moves: Vec<Move> = Vec::new();
    let mut i: usize = 0;
    assert(moves.deep_view() =~= all.take(0).filter_map(each));
    while i < dates.len()
        invariant
            i <= dates.len(),
            each == date_move_at(dates@),
            all == positions(dates@.len()),
            moves.deep_view() == all.take(i as int).filter_map(each),
        decreases dates.len() - i,
    {
        proof {
            all.lemma_filter_map_take_succ(each, i as int);
        }
        match dates[i] {
            Some((year, month)) => {
                let ghost before = moves.deep_view();
                let made = Move {
                    file: i,
                    target_dir: date_dir_name(year, month),
                    kind: MoveKind::Date,
                };
                moves.push(made);
                assert(moves.deep_view() =~= before + seq![made@]);
            },
            None => {},
        }
        i = i + 1;
    }
    assert(all.take(i as int) =~= all);
    moves
}

/// Files every file under the month in which it was last modified, in the
/// machine's local time. A file whose time stamp could not be read stays
/// where it is.
///
/// Which month that is depends on the machine's time zone, so the contract
/// says what holds in every zone: the moves are those of [`date_moves`] for
/// some dates that fit the files, each the calendar month of its file's time
/// stamp less than a day away from UTC.
pub fn organize_by_date(files: &Vec<FileEntry>) -> (moves: Vec<Move>)
    ensures
        exists|dates: Seq<Option<(i32, u32)>>|
            dates_fit(files.deep_view(), dates) && moves.deep_view() == date_moves(dates),
{
    let mut dates: Vec<Option<(i32, u32)>> = Vec::new();
    let mut i: usize = 0;
    while i < files.len()
        invariant
            i <= files.len(),
            dates.len() == i,
            forall|k: int|
                0 <= k < i ==> match (#[trigger] files[k]).modified {
                    Some(seconds) => {
                        &&& -DATED_SPAN <= seconds <= DATED_SPAN ==> dates[k] is Some
                        &&& dates[k] matches Some(date) ==> is_local_month(seconds, date) && 1
                            <= date.1 <= 12
                    },
                    None => dates[k] is None,
                },
        decreases files.len() - i,
    {
        let date = match files[i].modified {
            Some(seconds) => local_year_month(seconds),
            None => None,
        };
        dates.push(date);
        i = i + 1;
    }
    let moves = plan_by_date(&dates);
    assert forall|k: int| 0 <= k < files.len() implies (#[trigger] files.deep_view()[k]).modified
        == files[k].modified by {}
    assert(dates_fit(files.deep_view(), dates@));
    moves
}

/// Finds for each file the rule that decides where it goes.
fn choose_rules(files: &Vec<FileEntry>, rules: &Vec<OrganizeRule>) -> (chosen: Vec<Option<usize>>)
    ensures
        chosen@ == chosen_rules(files.deep_view(), rules.deep_view()),
{
    let mut chosen: Vec<Option<usize>> = Vec::new();
    let mut i: usize = 0;
    while i < files.len()
        invariant
            i <= files.len(),
            chosen.len() == i,
            forall|k: int|
                0 <= k < i ==> #[trigger] chosen[k] == first_match(
                    rules.deep_view(),
                    files[k]@.name,
                ),
        decreases files.len() - i,
    {
        let rule = choose_rule(rules, files[i].name.as_str());
        chosen.push(rule);
        i = i + 1;
    }
    assert(chosen@ =~= chosen_rules(files.deep_view(), rules.deep_view()));
    chosen
}

/// Works out the moves to make in a directory.
///
/// The custom rules come first: each file goes where the first rule that
/// applies to it says. Once a rule has applied to any file, nothing else is
/// moved. Otherwise the files are filed by date in the mode `date`, and by
/// type in every other mode. See [`planned`]; the dates are looked at only
/// where the files are filed by date, and then they fit the files.
pub fn run(files: &Vec<FileEntry>, mode: &str, rules: &Vec<OrganizeRule>) -> (moves: Vec<Move>)
    ensures
        exists|dates: Seq<Option<(i32, u32)>>|
            #![trigger planned(files.deep_view(), mode@, rules.deep_view(), dates)]
            (files_by_date(files.deep_view(), mode@, rules.deep_view()) ==> dates_fit(
                files.deep_view(),
                dates,
            )) && moves.deep_view() == planned(files.deep_view(), mode@, rules.deep_view(), dates),
{
    let ghost any_dates = Seq::<Option<(i32, u32)>>::empty();
    if rules.len() > 0 {
        let chosen = choose_rules(files, rules);
        let moves = plan_by_rule(&chosen, rules);
        if moves.len() > 0 {
            assert(moves.deep_view().len() == moves.len());
            assert((files_by_date(files.deep_view(), mode@, rules.deep_view()) ==> dates_fit(
                files.deep_view(),
                any_dates,
            )) && moves.deep_view() == planned(
                files.deep_view(),
                mode@,
                rules.deep_view(),
                any_dates,
            ));
            return moves;
        }
        assert(moves.deep_view().len() == moves.len());
    } else {
        proof {
            lemma_no_rules_no_moves(files.deep_view(), rules.deep_view());
        }
    }
    if same_text(mode, "date") {
        let moves = organize_by_date(files);
        proof {
            let dates = choose|dates: Seq<Option<(i32, u32)>>|
                dates_fit(files.deep_view(), dates) && moves.deep_view() == date_moves(dates);
            assert((files_by_date(files.deep_view(), mode@, rules.deep_view()) ==> dates_fit(
                files.deep_view(),
                dates,
            )) && moves.deep_view() == planned(
                files.deep_view(),
                mode@,
                rules.deep_view(),
                dates,
            ));
        }
        moves
    } else {
        let moves = organize_by_type(files);
        assert((files_by_date(files.deep_view(), mode@, rules.deep_view()) ==> dates_fit(
            files.deep_view(),
            any_dates,
        )) && moves.deep_view() == planned(
            files.deep_view(),
            mode@,
            rules.deep_view(),
            any_dates,
        ));
        moves
    }
}

/// No move follows where no rule was chosen for any file.
pub proof fn lemma_nothing_chosen(chosen: Seq<Option<usize>>, rules: Seq<OrganizeRuleView>)
    requires
        forall|i: int| 0 <= i < chosen.len() ==> #[trigger] chosen[i] is None,
    ensures
        moves_by_rule(chosen, rules).len() == 0,
{
    let each = rule_move_at(chosen, rules);
    let moves = moves_by_rule(chosen, rules);
    lemma_picked(chosen.len(), each);
    if moves.len() > 0 {
        let from = choose|from: int| 0 <= from < chosen.len() && #[trigger] each(from) == Some(moves[0]);
        assert(chosen[from] is None);
    }
}

/// Without rules, no rule applies.
pub proof fn lemma_no_rules_no_moves(files: Seq<FileEntryView>, rules: Seq<OrganizeRuleView>)
    requires
        rules.len() == 0,
    ensures
        rule_moves(files, rules).len() == 0,
{
    lemma_nothing_chosen(chosen_rules(files, rules), rules);
}

/// With no custom rule that applies to any file, and in every mode but
/// `date`, each file is moved exactly once: a file with the extension `e`
/// into the directory named `e`, a file without an extension into `other`.
/// Nothing else is moved.
pub proof fn lemma_filed_by_type(
    files: Seq<FileEntryView>,
    mode: Seq<char>,
    rules: Seq<OrganizeRuleView>,
    dates: Seq<Option<(i32, u32)>>,
)
    requires
        forall|i: int|
            0 <= i < files.len() ==> first_match(rules, (#[trigger] files[i]).name) is None,
        mode != "date"@,
    ensures
        planned(files, mode, rules, dates).len() == files.len(),
        forall|i: int|
            0 <= i < files.len() ==> {
                let made = #[trigger] planned(files, mode, rules, dates)[i];
                &&& made.file == i
                &&& made.kind == MoveKind::Type
                &&& made.target_dir == match extension(files[i].name) {
                    Some(e) => e,
                    None => "other"@,
                }
            },
{
    lemma_nothing_chosen(chosen_rules(files, rules), rules);
}

/// Once a custom rule applies to any file, the rules alone decide, whatever
/// the mode: every file to which a rule applies goes where the first such
/// rule says, and no other file is moved.
pub proof fn lemma_rules_take_over(
    files: Seq<FileEntryView>,
    mode: Seq<char>,
    rules: Seq<OrganizeRuleView>,
    dates: Seq<Option<(i32, u32)>>,
)
    requires
        exists|i: int| 0 <= i < files.len() && first_match(rules, files[i].name) is Some,
    ensures
        planned(files, mode, rules, dates) == rule_moves(files, rules),
        forall|k: int|
            0 <= k < rule_moves(files, rules).len() ==> {
                let made = #[trigger] rule_moves(files, rules)[k];
                &&& 0 <= made.file < files.len()
                &&& made.kind == MoveKind::Rule
                &&& first_match(rules, files[made.file].name) matches Some(r)
                &&& made.target_dir == rules[r as int].target_dir
            },
        forall|i: int|
            0 <= i < files.len() ==> (first_match(rules, (#[trigger] files[i]).name) matches Some(
                r,
            ) ==> rule_moves(files, rules).contains(
                MoveView { file: i, target_dir: rules[r as int].target_dir, kind: MoveKind::Rule },
            )),
{
    let chosen = chosen_rules(files, rules);
    let each = rule_move_at(chosen, rules);
    let moves = rule_moves(files, rules);
    lemma_picked(chosen.len(), each);
    let hit = choose|i: int| 0 <= i < files.len() && first_match(rules, files[i].name) is Some;
    assert(each(hit) is Some);
    assert(moves.contains(each(hit)->0));
    assert forall|k: int| 0 <= k < moves.len() implies {
        let made = #[trigger] moves[k];
        &&& 0 <= made.file < files.len()
        &&& made.kind == MoveKind::Rule
        &&& first_match(rules, files[made.file].name) matches Some(r)
        &&& made.target_dir == rules[r as int].target_dir
    } by {
        let from = choose|from: int|
            0 <= from < chosen.len() && #[trigger] each(from) == Some(moves[k]);
        assert(chosen[from] == first_match(rules, files[from].name));
    }
    assert forall|i: int| 0 <= i < files.len() implies (first_match(
        rules,
        (#[trigger] files[i]).name,
    ) matches Some(r) ==> moves.contains(
        MoveView { file: i, target_dir: rules[r as int].target_dir, kind: MoveKind::Rule },
    )) by {
        if first_match(rules, files[i].name) is Some {
            assert(each(i) is Some);
        }
    }
}

} // verus!
