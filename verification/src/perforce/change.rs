use super::PerforceError;
use super::PerforceFailure;
use super::PerforceResult;
use crate::date::strptime;
use crate::date::strptime_result;
use crate::date::DateTime;
use crate::lines::behind;
use crate::lines::rest_of;
use crate::lines::rows;
use crate::lines::starts_with;
use crate::text::copy_of;
use crate::text::parse_number;
use crate::text::plus_number_of;
use crate::text::push_chars;
use crate::text::string_of;
use vstd::prelude::*;

verus! {

/// One change of the depot as it was described: its number, when and by whom it was made,
/// and what its author wrote of it.
#[derive(Debug, PartialEq, Eq)]
pub struct Change {
    change: u32,
    date: DateTime,
    user: String,
    description: String,
}

/// A `Change` with its texts as character sequences.
pub struct ChangeRecord {
    pub change: u32,
    pub date: DateTime,
    pub user: Seq<char>,
    pub description: Seq<char>,
}

/// What has been read of the description of a change.
#[derive(Debug)]
pub struct ChangeDraft {
    change: Option<u32>,
    date: Option<DateTime>,
    user: Option<String>,
    described: bool,
    continued: bool,
    description: String,
}

/// A `ChangeDraft` with its texts as character sequences.
pub struct Draft {
    pub change: Option<u32>,
    pub date: Option<DateTime>,
    pub user: Option<Seq<char>>,
    /// Whether the heading of the description was read.
    pub described: bool,
    /// Whether a line of the description was read.
    pub continued: bool,
    pub description: Seq<char>,
}

impl View for Change {
    type V = ChangeRecord;

    closed spec fn view(&self) -> ChangeRecord {
        ChangeRecord {
            change: self.change,
            date: self.date,
            user: self.user@,
            description: self.description@,
        }
    }
}

impl View for ChangeDraft {
    type V = Draft;

    closed spec fn view(&self) -> Draft {
        Draft {
            change: self.change,
            date: self.date,
            user: match self.user {
                Some(user) => Some(user@),
                None => None,
            },
            described: self.described,
            continued: self.continued,
            description: self.description@,
        }
    }
}

/// The way the depot writes the date of a change.
pub open spec fn depot_date_format() -> Seq<char> {
    "%Y/%m/%d %H:%M:%S"@
}

/// The change numbers that `found` lists, in the order of the lines, or `None` where a line
/// that begins with `Change ` does not go on with a number and nothing else. Other lines
/// say nothing.
pub open spec fn change_numbers(found: Seq<Seq<char>>) -> Option<Seq<u32>>
    decreases found.len(),
{
    if found.len() == 0 {
        Some(Seq::empty())
    } else {
        match change_numbers(found.drop_last()) {
            None => None,
            Some(numbers) => if "Change "@.is_prefix_of(found.last()) {
                match plus_number_of(behind(found.last(), 7)) {
                    Some(number) => Some(numbers.push(number)),
                    None => None,
                }
            } else {
                Some(numbers)
            },
        }
    }
}

/// A draft in which nothing was read.
pub open spec fn blank() -> Draft {
    Draft {
        change: None,
        date: None,
        user: None,
        described: false,
        continued: false,
        description: Seq::empty(),
    }
}

/// Whether `line` begins with one of the four headings.
pub open spec fn is_heading(line: Seq<char>) -> bool {
    "Change:"@.is_prefix_of(line) || "Date:"@.is_prefix_of(line) || "User:"@.is_prefix_of(line)
        || "Description:"@.is_prefix_of(line)
}

/// Whether `line` is a line of the description: it begins with a tab.
pub open spec fn is_continuation(line: Seq<char>) -> bool {
    !is_heading(line) && "\t"@.is_prefix_of(line)
}

/// The description with the line `text` behind it: `text` alone where it is the first line,
/// and else what was there, a line feed, and `text`.
pub open spec fn continued_by(draft: Draft, text: Seq<char>) -> Seq<char> {
    if draft.continued {
        draft.description + "\n"@ + text
    } else {
        text
    }
}

/// The texts `texts` with a line feed between each and the next, and none at the end.
pub open spec fn joined(texts: Seq<Seq<char>>) -> Seq<char>
    decreases texts.len(),
{
    if texts.len() == 0 {
        Seq::empty()
    } else if texts.len() == 1 {
        texts[0]
    } else {
        joined(texts.drop_last()) + "\n"@ + texts.last()
    }
}

/// The lines of the description among `found`, each without its tab: the lines that begin
/// with a tab and stand behind the heading of the description.
pub open spec fn continuations(found: Seq<Seq<char>>) -> Seq<Seq<char>>
    decreases found.len(),
{
    if found.len() == 0 {
        Seq::empty()
    } else if is_continuation(found.last()) && (lines_read(found.drop_last()) matches Ok(draft)
        && draft.described) {
        continuations(found.drop_last()).push(behind(found.last(), 1))
    } else {
        continuations(found.drop_last())
    }
}

/// The draft after one more line. A line that begins with `Change:`, `Date:` or `User:`
/// gives that field, from the character behind the one that follows the colon. The line
/// `Description:` opens the description, and every later line that begins with a tab is a
/// line of it, without the tab. The lines of the description are joined by line feeds.
/// Other lines say nothing.
pub open spec fn line_read(draft: Draft, line: Seq<char>) -> Result<Draft, PerforceFailure> {
    if "Change:"@.is_prefix_of(line) {
        match plus_number_of(behind(line, 8)) {
            Some(number) => Ok(Draft { change: Some(number), ..draft }),
            None => Err(PerforceFailure::ParsingChangeFailed),
        }
    } else if "Date:"@.is_prefix_of(line) {
        match strptime_result(behind(line, 6), depot_date_format()) {
            Some(date) => Ok(Draft { date: Some(date), ..draft }),
            None => Err(PerforceFailure::DateParseError),
        }
    } else if "User:"@.is_prefix_of(line) {
        Ok(Draft { user: Some(behind(line, 6)), ..draft })
    } else if "Description:"@.is_prefix_of(line) {
        Ok(Draft { described: true, ..draft })
    } else if "\t"@.is_prefix_of(line) && draft.described {
        Ok(Draft { description: continued_by(draft, behind(line, 1)), continued: true, ..draft })
    } else {
        Ok(draft)
    }
}

/// The draft after the lines `found`, read from the first on, or the error of the first line
/// that could not be read.
pub open spec fn lines_read(found: Seq<Seq<char>>) -> Result<Draft, PerforceFailure>
    decreases found.len(),
{
    if found.len() == 0 {
        Ok(blank())
    } else {
        match lines_read(found.drop_last()) {
            Ok(draft) => line_read(draft, found.last()),
            Err(failure) => Err(failure),
        }
    }
}

/// The change that a draft describes: it has all four fields, or the description of change
/// `commit` was incorrect.
pub open spec fn change_of(draft: Draft, commit: u32) -> Result<ChangeRecord, PerforceFailure> {
    if draft.change is Some && draft.date is Some && draft.user is Some && draft.described {
        Ok(
            ChangeRecord {
                change: draft.change->0,
                date: draft.date->0,
                user: draft.user->0,
                description: draft.description,
            },
        )
    } else {
        Err(PerforceFailure::IncorrectChange { commit })
    }
}

/// The number that `chars` writes, with a plus sign allowed in front of the digits.
pub fn parse_plus_number(chars: &Vec<char>) -> (number: Option<u32>)
    ensures
        number == plus_number_of(chars@),
{
    if chars.len() > 0 && chars[0] == '+' {
        assert(chars@.drop_first() == chars@.subrange(1, chars.len() as int));
        parse_number(chars, 1, chars.len())
    } else {
        assert(chars@ == chars@.subrange(0, chars.len() as int));
        parse_number(chars, 0, chars.len())
    }
}

impl Change {
    /// The change `change`, made at `date` by `user`, who wrote `description` of it.
    pub fn new(change: u32, date: DateTime, user: &str, description: &str) -> (made: Change)
        ensures
            made@ == (ChangeRecord { change, date, user: user@, description: description@ }),
    {
        Change { change, date, user: copy_of(user), description: copy_of(description) }
    }

    pub fn change(&self) -> (change: u32)
        ensures
            change == self@.change,
    {
        self.change
    }

    pub fn date(&self) -> (date: &DateTime)
        ensures
            *date == self@.date,
    {
        &self.date
    }

    pub fn user(&self) -> (user: &str)
        ensures
            user@ == self@.user,
    {
        self.user.as_str()
    }

    pub fn description(&self) -> (description: &str)
        ensures
            description@ == self@.description,
    {
        self.description.as_str()
    }
}

impl ChangeDraft {
    /// A draft in which nothing was read.
    pub fn new() -> (draft: ChangeDraft)
        ensures
            draft@ == blank(),
    {
        ChangeDraft {
            change: None,
            date: None,
            user: None,
            described: false,
            continued: false,
            description: String::new(),
        }
    }

    /// Takes the date that was read from a line, or fails with the error it was read to.
    pub fn set_date(&mut self, parsed: Result<DateTime, time::ParseError>) -> (result:
        PerforceResult<()>)
        ensures
            match parsed {
                Ok(date) => result is Ok && final(self)@ == (Draft {
                    date: Some(date),
                    ..old(self)@
                }),
                Err(_) => result matches Err(error) && error@ == PerforceFailure::DateParseError
                    && final(self)@ == old(self)@,
            },
    {
        match parsed {
            Ok(date) => {
                self.date = Some(date);
                Ok(())
            },
            Err(error) => Err(PerforceError::date_parse_error(error)),
        }
    }

    /// Reads one more line of the description of a change.
    pub fn read_line(&mut self, line: &Vec<char>) -> (result: PerforceResult<()>)
        ensures
            match result {
                Ok(_) => line_read(old(self)@, line@) == Ok::<Draft, PerforceFailure>(
                    final(self)@,
                ),
                Err(error) => line_read(old(self)@, line@) == Err::<Draft, PerforceFailure>(
                    error@,
                ),
            },
    {
        if starts_with(line, "Change:") {
            let rest = rest_of(line, 8);
            match parse_plus_number(&rest) {
                Some(number) => {
                    self.change = Some(number);
                    Ok(())
                },
                None => Err(PerforceError::ParsingChangeFailed),
            }
        } else if starts_with(line, "Date:") {
            let rest = string_of(&rest_of(line, 6));
            proof {
                reveal_strlit("%Y/%m/%d %H:%M:%S");
            }
            let parsed = strptime(rest.as_str(), "%Y/%m/%d %H:%M:%S");
            self.set_date(parsed)
        } else if starts_with(line, "User:") {
            self.user = Some(string_of(&rest_of(line, 6)));
            Ok(())
        } else if starts_with(line, "Description:") {
            self.described = true;
            Ok(())
        } else if starts_with(line, "\t") && self.described {
            let rest = rest_of(line, 1);
            if self.continued {
                self.description.push('\n');
                push_chars(&mut self.description, &rest);
            } else {
                self.description = string_of(&rest);
            }
            self.continued = true;
            proof {
                reveal_strlit("\n");
                assert(self.description@ =~= continued_by(old(self)@, behind(line@, 1)));
            }
            Ok(())
        } else {
            Ok(())
        }
    }

    /// The change that the draft describes, if it has all its fields; `commit` is the change
    /// that was asked for.
    pub fn finish(self, commit: u32) -> (result: PerforceResult<Change>)
        ensures
            match result {
                Ok(change) => change_of(self@, commit) == Ok::<ChangeRecord, PerforceFailure>(
                    change@,
                ),
                Err(error) => change_of(self@, commit) == Err::<ChangeRecord, PerforceFailure>(
                    error@,
                ),
            },
    {
        if !self.described {
            return Err(PerforceError::incorrect_change(commit));
        }
        match (self.change, self.date, self.user) {
            (Some(change), Some(date), Some(user)) => Ok(
                Change { change, date, user, description: self.description },
            ),
            _ => Err(PerforceError::incorrect_change(commit)),
        }
    }
}

/// Reads the description of a change from its lines.
pub fn read_lines(found: &Vec<Vec<char>>) -> (result: PerforceResult<ChangeDraft>)
    ensures
        match result {
            Ok(draft) => lines_read(rows(found@)) == Ok::<Draft, PerforceFailure>(draft@),
            Err(error) => lines_read(rows(found@)) == Err::<Draft, PerforceFailure>(error@),
        },
{
    let mut draft = ChangeDraft::new();
    let mut i: usize = 0;
    let ghost all = rows(found@);
    proof {
        assert(all.take(0) =~= Seq::<Seq<char>>::empty());
    }
    while i < found.len()
        invariant
            i <= found.len(),
            all == rows(found@),
            lines_read(all.take(i as int)) == Ok::<Draft, PerforceFailure>(draft@),
        decreases found.len() - i,
    {
        proof {
            assert(all.take(i + 1).drop_last() == all.take(i as int));
            assert(all.take(i + 1).last() == found@[i as int]@);
        }
        match draft.read_line(&found[i]) {
            Ok(_) => {},
            Err(error) => {
                proof {
                    lemma_lines_read_fails(all, i + 1);
                }
                return Err(error);
            },
        }
        i += 1;
    }
    proof {
        assert(all.take(found.len() as int) == all);
    }
    Ok(draft)
}

/// The description of a change is its lines joined by line feeds: for the lines c1 to cn that
/// stand behind the heading, each without its tab, it is c1, a line feed, c2, and so on to
/// cn, with no line feed behind cn.
pub proof fn description_is_joined(found: Seq<Seq<char>>)
    requires
        lines_read(found) is Ok,
    ensures
        lines_read(found)->Ok_0.description == joined(continuations(found)),
        lines_read(found)->Ok_0.continued == (continuations(found).len() > 0),
    decreases found.len(),
{
    if found.len() > 0 {
        let before = found.drop_last();
        let line = found.last();
        description_is_joined(before);
        let draft = lines_read(before)->Ok_0;
        let texts = continuations(before);
        if is_continuation(line) && draft.described {
            let with = texts.push(behind(line, 1));
            assert(with.drop_last() == texts);
            assert(with.last() == behind(line, 1));
            if texts.len() == 0 {
                assert(with[0] == behind(line, 1));
            }
        }
    }
}

/// Once a line could not be read, the lines behind it change nothing.
pub proof fn lemma_lines_read_fails(found: Seq<Seq<char>>, k: int)
    requires
        0 <= k <= found.len(),
        lines_read(found.take(k)) is Err,
    ensures
        lines_read(found) == lines_read(found.take(k)),
    decreases found.len(),
{
    if k == found.len() {
        assert(found.take(k) == found);
    } else {
        assert(found.drop_last().take(k) == found.take(k));
        lemma_lines_read_fails(found.drop_last(), k);
    }
}

/// Once a line of a listing could not be read, the lines behind it change nothing.
pub proof fn lemma_change_numbers_fail(found: Seq<Seq<char>>, k: int)
    requires
        0 <= k <= found.len(),
        change_numbers(found.take(k)) is None,
    ensures
        change_numbers(found) is None,
    decreases found.len(),
{
    if k == found.len() {
        assert(found.take(k) == found);
    } else {
        assert(found.drop_last().take(k) == found.take(k));
        lemma_change_numbers_fail(found.drop_last(), k);
    }
}

/// Reads the change numbers of a listing from its lines.
pub fn read_changes(found: &Vec<Vec<char>>) -> (numbers: Option<Vec<u32>>)
    ensures
        match numbers {
            Some(numbers) => change_numbers(rows(found@)) == Some(numbers@),
            None => change_numbers(rows(found@)) is None,
        },
{
    let mut numbers: Vec<u32> = Vec::new();
    let mut i: usize = 0;
    let ghost all = rows(found@);
    proof {
        assert(all.take(0) =~= Seq::<Seq<char>>::empty());
    }
    while i < found.len()
        invariant
            i <= found.len(),
            all == rows(found@),
            change_numbers(all.take(i as int)) == Some(numbers@),
        decreases found.len() - i,
    {
        proof {
            assert(all.take(i + 1).drop_last() == all.take(i as int));
            assert(all.take(i + 1).last() == found@[i as int]@);
        }
        if starts_with(&found[i], "Change ") {
            let rest = rest_of(&found[i], 7);
            match parse_plus_number(&rest) {
                Some(number) => {
                    numbers.push(number);
                },
                None => {
                    proof {
                        lemma_change_numbers_fail(all, i + 1);
                    }
                    return None;
                },
            }
        }
        i += 1;
    }
    proof {
        assert(all.take(found.len() as int) == all);
    }
    Some(numbers)
}

} // verus!
