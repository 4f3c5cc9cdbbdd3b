//! Terminal-ready ANSI text: its parser and the runs that it yields.

use crate::sgr::{apply_sgr, parse_sgr_params, SgrState};
use crate::strings::{chars_of, clone_text, string_of};
use crate::style::{CanvasTextStyle, Color};
use vstd::prelude::*;

verus! {

/// A parsed ANSI text run with its resolved style.
///
/// Runs are split wherever the active style, background color or hyperlink may
/// change.
#[derive(Debug, PartialEq, Eq)]
pub struct AnsiRun {
    /// Plain text of this run, without control sequences.
    pub text: String,
    /// Resolved text style of the run.
    pub style: CanvasTextStyle,
    /// Optional background fill to apply behind the run.
    pub background_color: Option<Color>,
    /// Optional hyperlink carried by the run.
    pub hyperlink: Option<String>,
}

/// What an [`AnsiRun`] holds.
pub struct RunModel {
    pub text: Seq<char>,
    pub style: CanvasTextStyle,
    pub background_color: Option<Color>,
    pub hyperlink: Option<Seq<char>>,
}

impl View for AnsiRun {
    type V = RunModel;

    open spec fn view(&self) -> RunModel {
        RunModel {
            text: self.text@,
            style: self.style,
            background_color: self.background_color,
            hyperlink: crate::strings::opt_text(self.hyperlink),
        }
    }
}

impl Clone for AnsiRun {
    fn clone(&self) -> (r: Self)
        ensures
            r@ == self@,
    {
        AnsiRun {
            text: self.text.clone(),
            style: self.style,
            background_color: self.background_color,
            hyperlink: clone_text(&self.hyperlink),
        }
    }
}

/// What a list of runs holds.
pub open spec fn run_models(runs: Seq<AnsiRun>) -> Seq<RunModel> {
    runs.map_values(|run: AnsiRun| run@)
}

/// The escape character.
pub const ESC: char = '\u{1b}';

/// The bell character, which may end a string sequence.
pub const BEL: char = '\u{7}';

/// What stands at one place of an ANSI text.
pub enum Token {
    /// Nothing more: the end of the text, the end of the line, or a sequence that
    /// does not end.
    End,
    /// A character to show.
    Text(char),
    /// A style sequence with its parameters.
    Style(Seq<char>),
    /// An operating system command with its payload.
    Command(Seq<char>),
    /// Another string sequence.
    StringSequence,
    /// A control sequence without effect on text.
    Skipped,
}

/// The first place from `i` on of a character that ends a control sequence.
pub open spec fn csi_final(input: Seq<char>, i: int) -> Option<int>
    decreases input.len() - i,
{
    if i < 0 || i >= input.len() {
        None
    } else if '@' <= input[i] && input[i] <= '~' {
        Some(i)
    } else {
        csi_final(input, i + 1)
    }
}

/// The first place from `i` on of something that ends a string sequence, and its
/// length: a bell, or an escape with a backslash.
pub open spec fn string_end(input: Seq<char>, i: int) -> Option<(int, int)>
    decreases input.len() - i,
{
    if i < 0 || i >= input.len() {
        None
    } else if input[i] == BEL {
        Some((i, 1int))
    } else if input[i] == ESC && i + 1 < input.len() && input[i + 1] == '\\' {
        Some((i, 2int))
    } else {
        string_end(input, i + 1)
    }
}

/// Whether an escape with this character starts a string sequence of no effect.
pub open spec fn starts_string(c: char) -> bool {
    c == 'P' || c == '_' || c == '^' || c == 'X'
}

/// Whether an escape with this character selects a character set, which is named
/// by one character more.
pub open spec fn selects_charset(c: char) -> bool {
    c == '(' || c == ')' || c == '*' || c == '+'
}

/// The place after an escape that starts none of the sequences above.
pub open spec fn after_escape(input: Seq<char>, i: int) -> int {
    if i + 1 >= input.len() {
        i + 1
    } else if selects_charset(input[i + 1]) && i + 2 < input.len() {
        i + 3
    } else {
        i + 2
    }
}

/// What stands at place `i`, and the place after it.
pub open spec fn token_at(input: Seq<char>, i: int, stop_at_newline: bool) -> (Token, int) {
    if i < 0 || i >= input.len() {
        (Token::End, i)
    } else if input[i] == ESC {
        let next: Option<char> = if i + 1 < input.len() {
            Some(input[i + 1])
        } else {
            None
        };
        if next == Some('[') {
            match csi_final(input, i + 2) {
                Some(end) => if input[end] == 'm' {
                    (Token::Style(input.subrange(i + 2, end)), end + 1)
                } else {
                    (Token::Skipped, end + 1)
                },
                None => (Token::End, i),
            }
        } else if next == Some(']') {
            match string_end(input, i + 2) {
                Some((end, length)) => (
                    Token::Command(input.subrange(i + 2, end)),
                    end + length,
                ),
                None => (Token::End, i),
            }
        } else if next is Some && starts_string(next->0) {
            match string_end(input, i + 2) {
                Some((end, length)) => (Token::StringSequence, end + length),
                None => (Token::End, i),
            }
        } else {
            (Token::Skipped, after_escape(input, i))
        }
    } else if stop_at_newline && (input[i] == '\r' || input[i] == '\n') {
        (Token::End, i)
    } else {
        (Token::Text(input[i]), i + 1)
    }
}

/// The first place from `i` on of the character `c`, or the length.
pub open spec fn position_of(text: Seq<char>, c: char, i: int) -> int
    decreases text.len() - i,
{
    if i < 0 || i >= text.len() {
        text.len() as int
    } else if text[i] == c {
        i
    } else {
        position_of(text, c, i + 1)
    }
}

/// The hyperlink that a command sets: `8;params;uri`. An empty address ends the
/// link; any other command changes nothing.
pub open spec fn link_of(payload: Seq<char>) -> Option<Option<Seq<char>>> {
    if payload.len() >= 2 && payload[0] == '8' && payload[1] == ';' {
        let separator: int = position_of(payload, ';', 2);
        if separator >= payload.len() {
            None
        } else if separator + 1 == payload.len() {
            Some(None)
        } else {
            Some(Some(payload.skip(separator + 1)))
        }
    } else {
        None
    }
}

/// What parsing has found so far.
pub struct ParseModel {
    /// The runs that are complete.
    pub runs: Seq<RunModel>,
    /// The text of the run that is not.
    pub text: Seq<char>,
    /// The active style.
    pub sgr: SgrState,
    /// The active hyperlink.
    pub link: Option<Seq<char>>,
}

impl ParseModel {
    /// Nothing found yet.
    pub open spec fn initial() -> ParseModel {
        ParseModel {
            runs: Seq::empty(),
            text: Seq::empty(),
            sgr: crate::sgr::initial_sgr(),
            link: None,
        }
    }

    /// The pending text made a run, if there is any.
    pub open spec fn flushed(self) -> ParseModel {
        if self.text.len() == 0 {
            self
        } else {
            ParseModel {
                runs: self.runs.push(
                    RunModel {
                        text: self.text,
                        style: self.sgr.style,
                        background_color: self.sgr.background_color,
                        hyperlink: self.link,
                    },
                ),
                text: Seq::empty(),
                ..self
            }
        }
    }

    /// One token more read.
    pub open spec fn read(self, token: Token) -> ParseModel {
        match token {
            Token::End => self,
            Token::Text(c) => ParseModel { text: self.text.push(c), ..self },
            Token::Style(params) => ParseModel {
                sgr: crate::sgr::sgr_applied(self.sgr, crate::sgr::params_of(params), 0),
                ..self.flushed()
            },
            Token::Command(payload) => ParseModel {
                link: match link_of(payload) {
                    Some(link) => link,
                    None => self.link,
                },
                ..self.flushed()
            },
            Token::StringSequence => self.flushed(),
            Token::Skipped => self,
        }
    }
}

/// What parsing finds from place `i` on, given what it has found before.
pub open spec fn parsed_from(
    input: Seq<char>,
    i: int,
    stop_at_newline: bool,
    found: ParseModel,
) -> ParseModel
    decreases input.len() - i,
{
    let (token, next): (Token, int) = token_at(input, i, stop_at_newline);
    if token is End || i < 0 {
        found.flushed()
    } else {
        proof {
            lemma_token_bounds(input, i, stop_at_newline);
        }
        parsed_from(input, next, stop_at_newline, found.read(token))
    }
}

/// The runs of an ANSI text; of its first line only, where `stop_at_newline`.
pub open spec fn ansi_runs(input: Seq<char>, stop_at_newline: bool) -> Seq<RunModel> {
    parsed_from(input, 0, stop_at_newline, ParseModel::initial()).runs
}

/// The text that the runs show.
pub open spec fn visible_text(runs: Seq<RunModel>) -> Seq<char> {
    crate::strings::concat(runs.map_values(|run: RunModel| run.text))
}

proof fn lemma_csi_final_bounds(input: Seq<char>, i: int)
    requires
        0 <= i,
    ensures
        csi_final(input, i) matches Some(end) ==> i <= end < input.len(),
    decreases input.len() - i,
{
    if i < input.len() {
        lemma_csi_final_bounds(input, i + 1);
    }
}

proof fn lemma_string_end_bounds(input: Seq<char>, i: int)
    requires
        0 <= i,
    ensures
        string_end(input, i) matches Some((end, length)) ==> i <= end && 1 <= length <= 2 && end
            + length <= input.len(),
    decreases input.len() - i,
{
    if i < input.len() {
        lemma_string_end_bounds(input, i + 1);
    }
}

/// Every token that is not the end takes up a part of the text.
pub proof fn lemma_token_bounds(input: Seq<char>, i: int, stop_at_newline: bool)
    requires
        0 <= i,
    ensures
        ({
            let (token, next): (Token, int) = token_at(input, i, stop_at_newline);
            token !is End ==> i < input.len() && i < next <= input.len()
        }),
{
    lemma_csi_final_bounds(input, i + 2);
    lemma_string_end_bounds(input, i + 2);
}

/// Finds the character that ends a control sequence.
fn find_csi_final(input: &Vec<char>, from: usize) -> (end: Option<usize>)
    requires
        from <= input@.len(),
    ensures
        match end {
            Some(end) => csi_final(input@, from as int) == Some(end as int) && from <= end
                < input@.len(),
            None => csi_final(input@, from as int) is None,
        },
{
    let mut i: usize = from;
    while i < input.len()
        invariant
            from <= i <= input@.len(),
            csi_final(input@, from as int) == csi_final(input@, i as int),
        decreases input@.len() - i,
    {
        let c = input[i];
        if '@' <= c && c <= '~' {
            return Some(i);
        }
        i = i + 1;
    }
    None
}

/// Finds what ends a string sequence.
fn string_sequence_end(input: &Vec<char>, body_start: usize) -> (end: Option<(usize, usize)>)
    requires
        body_start <= input@.len(),
    ensures
        match end {
            Some((end, length)) => {
                &&& string_end(input@, body_start as int) == Some((end as int, length as int))
                &&& body_start <= end
                &&& 1 <= length <= 2
                &&& end + length <= input@.len()
            },
            None => string_end(input@, body_start as int) is None,
        },
{
    let mut i: usize = body_start;
    while i < input.len()
        invariant
            body_start <= i <= input@.len(),
            string_end(input@, body_start as int) == string_end(input@, i as int),
        decreases input@.len() - i,
    {
        let c = input[i];
        if c == BEL {
            return Some((i, 1));
        }
        if c == ESC && i + 1 < input.len() && input[i + 1] == '\\' {
            return Some((i, 2));
        }
        i = i + 1;
    }
    None
}

/// Reads the hyperlink that a command sets.
pub fn parse_osc8_hyperlink(payload: &str) -> (link: Option<Option<String>>)
    ensures
        match link {
            Some(link) => link_of(payload@) == Some(crate::strings::opt_text(link)),
            None => link_of(payload@) is None,
        },
{
    let chars = chars_of(payload);
    if chars.len() < 2 || chars[0] != '8' || chars[1] != ';' {
        return None;
    }
    let mut i: usize = 2;
    while i < chars.len() && chars[i] != ';'
        invariant
            2 <= i <= chars@.len(),
            position_of(chars@, ';', 2) == position_of(chars@, ';', i as int),
        decreases chars@.len() - i,
    {
        i = i + 1;
    }
    if i == chars.len() {
        return None;
    }
    if i + 1 == chars.len() {
        return Some(None);
    }
    let uri = string_of(&chars, i + 1, chars.len());
    assert(uri@ =~= payload@.skip(i + 1));
    Some(Some(uri))
}

/// Makes the pending text a run, if there is any.
fn flush_run(
    runs: &mut Vec<AnsiRun>,
    text: &mut String,
    sgr: &SgrState,
    hyperlink: &Option<String>,
)
    ensures
        ({
            let before = ParseModel {
                runs: run_models(old(runs)@),
                text: old(text)@,
                sgr: *sgr,
                link: crate::strings::opt_text(*hyperlink),
            };
            let after = before.flushed();
            run_models(final(runs)@) == after.runs && final(text)@ == after.text
        }),
{
    if text.as_str().is_empty() {
        return;
    }
    let mut taken = String::new();
    std::mem::swap(&mut taken, text);
    assert(text@ =~= Seq::<char>::empty());
    let run = AnsiRun {
        text: taken,
        style: sgr.style,
        background_color: sgr.background_color,
        hyperlink: clone_text(hyperlink),
    };
    runs.push(run);
    assert(run_models(runs@) =~= run_models(old(runs)@).push(run@));
}

/// Parses an ANSI text; its first line only, where `stop_at_newline`.
pub fn parse_ansi_impl(text: &str, stop_at_newline: bool) -> (result: Vec<AnsiRun>)
    ensures
        run_models(result@) == ansi_runs(text@, stop_at_newline),
{
    let input = chars_of(text);
    let mut runs: Vec<AnsiRun> = Vec::new();
    let mut pending = String::new();
    let mut sgr = SgrState::default();
    let mut hyperlink: Option<String> = None;
    let mut i: usize = 0;
    assert(run_models(runs@) =~= Seq::empty());
    assert(pending@ =~= Seq::empty());
    let mut ended = false;
    while i < input.len() && !ended
        invariant
            i <= input@.len(),
            ({
                let found = ParseModel {
                    runs: run_models(runs@),
                    text: pending@,
                    sgr,
                    link: crate::strings::opt_text(hyperlink),
                };
                parsed_from(input@, 0, stop_at_newline, ParseModel::initial()) == if ended {
                    found.flushed()
                } else {
                    parsed_from(input@, i as int, stop_at_newline, found)
                }
            }),
        decreases input@.len() - i, !ended as int,
    {
        let c = input[i];
        if c == ESC {
            let next = if i + 1 < input.len() {
                Some(input[i + 1])
            } else {
                None
            };
            if next == Some('[') {
                match find_csi_final(&input, i + 2) {
                    Some(end) => {
                        if input[end] == 'm' {
                            flush_run(&mut runs, &mut pending, &sgr, &hyperlink);
                            let params_text = string_of(&input, i + 2, end);
                            let params = parse_sgr_params(params_text.as_str());
                            apply_sgr(&mut sgr, &params);
                        }
                        i = end + 1;
                    },
                    None => {
                        ended = true;
                    },
                }
            } else if next == Some(']') {
                match string_sequence_end(&input, i + 2) {
                    Some((end, length)) => {
                        flush_run(&mut runs, &mut pending, &sgr, &hyperlink);
                        let payload = string_of(&input, i + 2, end);
                        if let Some(link) = parse_osc8_hyperlink(payload.as_str()) {
                            hyperlink = link;
                        }
                        i = end + length;
                    },
                    None => {
                        ended = true;
                    },
                }
            } else if next == Some('P') || next == Some('_') || next == Some('^') || next == Some(
                'X',
            ) {
                match string_sequence_end(&input, i + 2) {
                    Some((end, length)) => {
                        flush_run(&mut runs, &mut pending, &sgr, &hyperlink);
                        i = end + length;
                    },
                    None => {
                        ended = true;
                    },
                }
            } else {
                i = i + 1;
                if let Some(selector) = next {
                    i = i + 1;
                    if selector == '(' || selector == ')' || selector == '*' || selector == '+' {
                        if i < input.len() {
                            i = i + 1;
                        }
                    }
                }
            }
        } else if stop_at_newline && (c == '\r' || c == '\n') {
            ended = true;
        } else {
            pending.push(c);
            i = i + 1;
        }
    }
    flush_run(&mut runs, &mut pending, &sgr, &hyperlink);
    runs
}

/// Parses an ANSI text.
pub fn parse_ansi(input: &str) -> (runs: Vec<AnsiRun>)
    ensures
        run_models(runs@) == ansi_runs(input@, false),
{
    parse_ansi_impl(input, false)
}

/// Parses the first line of an ANSI text.
pub fn parse_ansi_line(line: &str) -> (runs: Vec<AnsiRun>)
    ensures
        run_models(runs@) == ansi_runs(line@, true),
{
    parse_ansi_impl(line, true)
}

/// The text that parsing has found: that of the runs and the pending one.
pub open spec fn found_text(found: ParseModel) -> Seq<char> {
    visible_text(found.runs) + found.text
}

proof fn lemma_flush_keeps_text(found: ParseModel)
    ensures
        found_text(found.flushed()) == found_text(found),
        found.flushed().text.len() == 0,
{
    if found.text.len() > 0 {
        let texts = found.runs.map_values(|run: RunModel| run.text);
        assert(found.flushed().runs.map_values(|run: RunModel| run.text) =~= texts.push(
            found.text,
        ));
        crate::strings::lemma_concat_push(texts, found.text);
        assert(found_text(found.flushed()) =~= found_text(found));
    }
}

proof fn lemma_read_text(found: ParseModel, token: Token)
    ensures
        found_text(found.read(token)) == match token {
            Token::Text(c) => found_text(found).push(c),
            _ => found_text(found),
        },
{
    lemma_flush_keeps_text(found);
    match token {
        Token::Text(c) => {
            assert(found_text(found.read(token)) =~= found_text(found).push(c));
        },
        Token::Style(params) => {
            let flushed = found.flushed();
            assert(found.read(token).runs == flushed.runs);
            assert(found.read(token).text == flushed.text);
        },
        Token::Command(payload) => {
            let flushed = found.flushed();
            assert(found.read(token).runs == flushed.runs);
            assert(found.read(token).text == flushed.text);
        },
        _ => {},
    }
}

proof fn lemma_parsed_from(input: Seq<char>, i: int, stop_at_newline: bool, found: ParseModel)
    requires
        0 <= i <= input.len(),
    ensures
        ({
            let after = parsed_from(input, i, stop_at_newline, found);
            &&& after.text.len() == 0
            &&& found_text(after).len() <= found_text(found).len() + (input.len() - i)
        }),
    decreases input.len() - i,
{
    let (token, next): (Token, int) = token_at(input, i, stop_at_newline);
    lemma_flush_keeps_text(found);
    if token !is End {
        lemma_token_bounds(input, i, stop_at_newline);
        lemma_read_text(found, token);
        lemma_parsed_from(input, next, stop_at_newline, found.read(token));
    }
}

/// Parsing shows at most as many characters as the text has.
pub proof fn lemma_visible_text_is_shorter(input: Seq<char>, stop_at_newline: bool)
    ensures
        visible_text(ansi_runs(input, stop_at_newline)).len() <= input.len(),
{
    let found = ParseModel::initial();
    let after = parsed_from(input, 0, stop_at_newline, found);
    lemma_parsed_from(input, 0, stop_at_newline, found);
    assert(found.runs.map_values(|run: RunModel| run.text) =~= Seq::<Seq<char>>::empty());
    assert(found_text(after) =~= visible_text(after.runs));
}

/// Whether a character can be shown: escapes never are, and line ends only where
/// parsing does not stop at them.
pub open spec fn showable(c: char, stop_at_newline: bool) -> bool {
    c != ESC && !(stop_at_newline && (c == '\r' || c == '\n'))
}

/// Whether everything found so far can be shown, in runs that are not empty.
pub open spec fn shows_only_text(found: ParseModel, stop_at_newline: bool) -> bool {
    &&& forall|k: int| 0 <= k < found.text.len() ==> showable(#[trigger] found.text[k], stop_at_newline)
    &&& forall|r: int|
        0 <= r < found.runs.len() ==> {
            &&& (#[trigger] found.runs[r]).text.len() > 0
            &&& forall|k: int|
                0 <= k < found.runs[r].text.len() ==> showable(
                    #[trigger] found.runs[r].text[k],
                    stop_at_newline,
                )
        }
}

proof fn lemma_parsed_shows_only_text(
    input: Seq<char>,
    i: int,
    stop_at_newline: bool,
    found: ParseModel,
)
    requires
        0 <= i,
        shows_only_text(found, stop_at_newline),
    ensures
        shows_only_text(parsed_from(input, i, stop_at_newline, found), stop_at_newline),
    decreases input.len() - i,
{
    let (token, next): (Token, int) = token_at(input, i, stop_at_newline);
    assert(shows_only_text(found.flushed(), stop_at_newline));
    if token !is End {
        lemma_token_bounds(input, i, stop_at_newline);
        assert(shows_only_text(found.read(token), stop_at_newline));
        lemma_parsed_shows_only_text(input, next, stop_at_newline, found.read(token));
    }
}

/// Runs are never empty, and no escape sequence leaks into what they show; of a
/// single line, no line end either.
pub proof fn lemma_runs_show_only_text(input: Seq<char>, stop_at_newline: bool)
    ensures
        forall|r: int|
            0 <= r < ansi_runs(input, stop_at_newline).len() ==> {
                let text = (#[trigger] ansi_runs(input, stop_at_newline)[r]).text;
                &&& text.len() > 0
                &&& forall|k: int| 0 <= k < text.len() ==> showable(#[trigger] text[k], stop_at_newline)
            },
{
    lemma_parsed_shows_only_text(input, 0, stop_at_newline, ParseModel::initial());
}

proof fn lemma_parsed_plain(input: Seq<char>, i: int, found: ParseModel)
    requires
        0 <= i <= input.len(),
        forall|k: int| 0 <= k < input.len() ==> #[trigger] input[k] != ESC,
    ensures
        parsed_from(input, i, false, found) == (ParseModel {
            text: found.text + input.skip(i),
            ..found
        }).flushed(),
    decreases input.len() - i,
{
    if i < input.len() {
        let read = found.read(Token::Text(input[i]));
        lemma_parsed_plain(input, i + 1, read);
        assert(read.text + input.skip(i + 1) =~= found.text + input.skip(i));
    } else {
        assert(found.text + input.skip(i) =~= found.text);
    }
}

/// Text without escapes is a single run of plain style (none if it is empty).
pub proof fn lemma_plain_text_is_one_run(input: Seq<char>)
    requires
        forall|k: int| 0 <= k < input.len() ==> #[trigger] input[k] != ESC,
    ensures
        ansi_runs(input, false) == if input.len() == 0 {
            Seq::empty()
        } else {
            seq![
                RunModel {
                    text: input,
                    style: crate::style::plain_style(),
                    background_color: None,
                    hyperlink: None,
                },
            ]
        },
{
    lemma_parsed_plain(input, 0, ParseModel::initial());
    assert(Seq::<char>::empty() + input.skip(0) =~= input);
}

proof fn lemma_line_parsed_plain(line: Seq<char>, rest: Seq<char>, i: int, found: ParseModel)
    requires
        0 <= i <= line.len(),
        forall|k: int|
            0 <= k < line.len() ==> #[trigger] line[k] != ESC && line[k] != '\r' && line[k]
                != '\n',
        rest.len() == 0 || rest[0] == '\r' || rest[0] == '\n',
    ensures
        parsed_from(line + rest, i, true, found) == (ParseModel {
            text: found.text + line.skip(i),
            ..found
        }).flushed(),
    decreases line.len() - i,
{
    let input = line + rest;
    if i < line.len() {
        assert(input[i] == line[i]);
        let read = found.read(Token::Text(line[i]));
        lemma_line_parsed_plain(line, rest, i + 1, read);
        assert(read.text + line.skip(i + 1) =~= found.text + line.skip(i));
    } else {
        if rest.len() > 0 {
            assert(input[i] == rest[0]);
        }
        assert(found.text + line.skip(i) =~= found.text);
    }
}

/// A line without escapes is a single run of plain style (none if it is empty), whatever
/// follows its end.
pub proof fn lemma_plain_line_is_one_run(line: Seq<char>, rest: Seq<char>)
    requires
        forall|k: int|
            0 <= k < line.len() ==> #[trigger] line[k] != ESC && line[k] != '\r' && line[k]
                != '\n',
        rest.len() == 0 || rest[0] == '\r' || rest[0] == '\n',
    ensures
        ansi_runs(line + rest, true) == if line.len() == 0 {
            Seq::empty()
        } else {
            seq![
                RunModel {
                    text: line,
                    style: crate::style::plain_style(),
                    background_color: None,
                    hyperlink: None,
                },
            ]
        },
{
    lemma_line_parsed_plain(line, rest, 0, ParseModel::initial());
    assert(Seq::<char>::empty() + line.skip(0) =~= line);
}

/// A style sequence leaves the hyperlink alone, a reset included.
pub proof fn lemma_style_keeps_link(found: ParseModel, params: Seq<char>)
    ensures
        found.read(Token::Style(params)).link == found.link,
{
}

/// The runs of a text that is followed by another, each in its own look: a text that is empty
/// is no run.
pub open spec fn two_runs(
    first: (Seq<char>, SgrState, Option<Seq<char>>),
    second: (Seq<char>, SgrState, Option<Seq<char>>),
) -> Seq<RunModel> {
    one_run(first.0, first.1, first.2) + one_run(second.0, second.1, second.2)
}

/// The run of a text in the given look; none where it is empty.
pub open spec fn one_run(text: Seq<char>, sgr: SgrState, link: Option<Seq<char>>) -> Seq<RunModel> {
    if text.len() == 0 {
        Seq::empty()
    } else {
        seq![
            RunModel {
                text,
                style: sgr.style,
                background_color: sgr.background_color,
                hyperlink: link,
            },
        ]
    }
}

/// Whether a text is shown as it is: it has neither an escape nor a line end.
pub open spec fn is_plain_line(text: Seq<char>) -> bool {
    forall|k: int|
        0 <= k < text.len() ==> #[trigger] text[k] != '\u{1b}' && text[k] != '\r' && text[k]
            != '\n'
}

/// Plain text that is read joins the text that is pending.
proof fn lemma_plain_part(
    input: Seq<char>,
    i: int,
    text: Seq<char>,
    stop_at_newline: bool,
    found: ParseModel,
)
    requires
        0 <= i,
        i + text.len() <= input.len(),
        input.subrange(i, i + text.len()) == text,
        is_plain_line(text),
    ensures
        parsed_from(input, i, stop_at_newline, found) == parsed_from(
            input,
            i + text.len(),
            stop_at_newline,
            ParseModel { text: found.text + text, ..found },
        ),
    decreases text.len(),
{
    if text.len() > 0 {
        assert(input.subrange(i, i + text.len())[0] == input[i]);
        assert(text[0] == input[i]);
        let rest = text.skip(1);
        assert(input.subrange(i + 1, i + 1 + rest.len()) =~= rest) by {
            assert forall|k: int| 0 <= k < rest.len() implies input.subrange(
                i + 1,
                i + 1 + rest.len(),
            )[k] == rest[k] by {
                assert(input.subrange(i, i + text.len())[k + 1] == text[k + 1]);
            }
        }
        assert forall|k: int| 0 <= k < rest.len() implies #[trigger] rest[k] != '\u{1b}'
            && rest[k] != '\r' && rest[k] != '\n' by {
            assert(rest[k] == text[k + 1]);
        }
        let read = found.read(Token::Text(input[i]));
        lemma_plain_part(input, i + 1, rest, stop_at_newline, read);
        assert(read.text + rest =~= found.text + text);
    } else {
        assert(found.text + text =~= found.text);
    }
}

/// A text that has one sequence between two plain parts: what the sequence means decides how
/// the second part looks.
proof fn lemma_one_sequence(
    before: Seq<char>,
    sequence: Seq<char>,
    after: Seq<char>,
    stop_at_newline: bool,
)
    requires
        is_plain_line(before),
        is_plain_line(after),
    ensures
        ({
            let input = before + sequence + after;
            let (token, next): (Token, int) = token_at(
                input,
                before.len() as int,
                stop_at_newline,
            );
            let read = (ParseModel { text: before, ..ParseModel::initial() }).read(token);
            token !is End && next == before.len() + sequence.len() ==> ansi_runs(
                input,
                stop_at_newline,
            ) == (ParseModel { text: read.text + after, ..read }).flushed().runs
        }),
{
    let input = before + sequence + after;
    let start = ParseModel::initial();
    assert(input.subrange(0, before.len() as int) =~= before);
    lemma_plain_part(input, 0, before, stop_at_newline, start);
    assert(start.text + before =~= before);
    let middle = ParseModel { text: before, ..start };
    let (token, next): (Token, int) = token_at(input, before.len() as int, stop_at_newline);
    let read = middle.read(token);
    if token !is End && next == before.len() + sequence.len() {
        assert(parsed_from(input, before.len() as int, stop_at_newline, middle) == parsed_from(
            input,
            next,
            stop_at_newline,
            read,
        ));
        assert(input.subrange(next, next + after.len()) =~= after);
        lemma_plain_part(input, next, after, stop_at_newline, read);
        assert(next + after.len() == input.len());
        assert(token_at(input, input.len() as int, stop_at_newline).0 is End);
    }
}

proof fn lemma_csi_final_at(input: Seq<char>, i: int, end: int)
    requires
        0 <= i <= end < input.len(),
        '@' <= input[end] <= '~',
        forall|k: int| i <= k < end ==> !('@' <= #[trigger] input[k] <= '~'),
    ensures
        csi_final(input, i) == Some(end),
    decreases end - i,
{
    if i < end {
        lemma_csi_final_at(input, i + 1, end);
    }
}

proof fn lemma_string_end_at(input: Seq<char>, i: int, end: int)
    requires
        0 <= i <= end < input.len(),
        input[end] == '\u{7}' || (input[end] == '\u{1b}' && end + 1 < input.len() && input[end + 1]
            == '\\'),
        forall|k: int| i <= k < end ==> #[trigger] input[k] != '\u{7}' && input[k] != '\u{1b}',
    ensures
        string_end(input, i) == Some(
            (
                end,
                if input[end] == '\u{7}' {
                    1int
                } else {
                    2int
                },
            ),
        ),
    decreases end - i,
{
    if i < end {
        lemma_string_end_at(input, i + 1, end);
    }
}

/// A style sequence, `ESC [ params m`, styles the text behind it as its parameters say, and
/// leaves the text before it as it was. It is not shown itself.
pub proof fn lemma_style_sequence_styles_what_follows(
    before: Seq<char>,
    params: Seq<char>,
    after: Seq<char>,
    stop_at_newline: bool,
)
    requires
        is_plain_line(before),
        is_plain_line(after),
        forall|k: int| 0 <= k < params.len() ==> !('@' <= #[trigger] params[k] <= '~'),
    ensures
        ansi_runs(before + (seq!['\u{1b}', '['] + params + seq!['m']) + after, stop_at_newline)
            == two_runs(
            (before, crate::sgr::initial_sgr(), None),
            (
                after,
                crate::sgr::sgr_applied(
                    crate::sgr::initial_sgr(),
                    crate::sgr::params_of(params),
                    0,
                ),
                None,
            ),
        ),
{
    let sequence = seq!['\u{1b}', '['] + params + seq!['m'];
    let input = before + sequence + after;
    let i: int = before.len() as int;
    let end: int = i + 2 + params.len();
    assert(input[i] == sequence[0] && input[i + 1] == sequence[1]);
    assert(input[end] == sequence[2 + params.len() as int]);
    assert forall|k: int| i + 2 <= k < end implies !('@' <= #[trigger] input[k] <= '~') by {
        assert(input[k] == params[k - i - 2]);
    }
    lemma_csi_final_at(input, i + 2, end);
    assert(input.subrange(i + 2, end) =~= params);
    lemma_one_sequence(before, sequence, after, stop_at_newline);
    let start = ParseModel { text: before, ..ParseModel::initial() };
    let read = start.read(Token::Style(params));
    assert(read.text + after =~= after);
    assert((ParseModel { text: read.text + after, ..read }).flushed().runs =~= two_runs(
        (before, crate::sgr::initial_sgr(), None),
        (after, read.sgr, None),
    ));
}

/// Any other control sequence, `ESC [` with another letter at its end, is taken out of the
/// text, which goes on behind it as if it were not there.
pub proof fn lemma_other_sequence_is_taken_out(
    before: Seq<char>,
    params: Seq<char>,
    last: char,
    after: Seq<char>,
    stop_at_newline: bool,
)
    requires
        is_plain_line(before),
        is_plain_line(after),
        forall|k: int| 0 <= k < params.len() ==> !('@' <= #[trigger] params[k] <= '~'),
        '@' <= last <= '~',
        last != 'm',
    ensures
        ansi_runs(before + (seq!['\u{1b}', '['] + params + seq![last]) + after, stop_at_newline)
            == one_run(before + after, crate::sgr::initial_sgr(), None),
{
    let sequence = seq!['\u{1b}', '['] + params + seq![last];
    let input = before + sequence + after;
    let i: int = before.len() as int;
    let end: int = i + 2 + params.len();
    assert(input[i] == sequence[0] && input[i + 1] == sequence[1]);
    assert(input[end] == sequence[2 + params.len() as int]);
    assert forall|k: int| i + 2 <= k < end implies !('@' <= #[trigger] input[k] <= '~') by {
        assert(input[k] == params[k - i - 2]);
    }
    lemma_csi_final_at(input, i + 2, end);
    lemma_one_sequence(before, sequence, after, stop_at_newline);
    let read = ParseModel { text: before, ..ParseModel::initial() };
    assert((ParseModel { text: before + after, ..read }).flushed().runs =~= one_run(
        before + after,
        crate::sgr::initial_sgr(),
        None,
    ));
}

/// A hyperlink sequence, `ESC ] 8 ; params ; uri` up to a bell or `ESC \`, links the text
/// behind it to the address and leaves the text before it as it was; without an address the
/// text is not linked.
pub proof fn lemma_link_sequence_links_what_follows(
    before: Seq<char>,
    params: Seq<char>,
    uri: Seq<char>,
    bell: bool,
    after: Seq<char>,
    stop_at_newline: bool,
)
    requires
        is_plain_line(before),
        is_plain_line(after),
        forall|k: int|
            0 <= k < params.len() ==> #[trigger] params[k] != ';' && params[k] != '\u{7}'
                && params[k] != '\u{1b}',
        forall|k: int| 0 <= k < uri.len() ==> #[trigger] uri[k] != '\u{7}' && uri[k] != '\u{1b}',
    ensures
        ({
            let end = if bell {
                seq!['\u{7}']
            } else {
                seq!['\u{1b}', '\\']
            };
            let payload = seq!['8', ';'] + params + seq![';'] + uri;
            let link = if uri.len() == 0 {
                None
            } else {
                Some(uri)
            };
            ansi_runs(before + (seq!['\u{1b}', ']'] + payload + end) + after, stop_at_newline)
                == two_runs(
                (before, crate::sgr::initial_sgr(), None),
                (after, crate::sgr::initial_sgr(), link),
            )
        }),
{
    let end = if bell {
        seq!['\u{7}']
    } else {
        seq!['\u{1b}', '\\']
    };
    let payload = seq!['8', ';'] + params + seq![';'] + uri;
    let sequence = seq!['\u{1b}', ']'] + payload + end;
    let input = before + sequence + after;
    let i: int = before.len() as int;
    let stop: int = i + 2 + payload.len();
    assert(input[i] == sequence[0] && input[i + 1] == sequence[1]);
    assert(input[stop] == sequence[2 + payload.len() as int]);
    assert(input[stop] == end[0]);
    if !bell {
        assert(input[stop + 1] == sequence[3 + payload.len() as int]);
        assert(input[stop + 1] == end[1]);
    }
    assert forall|k: int| i + 2 <= k < stop implies #[trigger] input[k] != '\u{7}' && input[k]
        != '\u{1b}' by {
        assert(input[k] == payload[k - i - 2]);
        let j: int = k - i - 2;
        if 2 <= j < 2 + params.len() {
            assert(payload[j] == params[j - 2]);
        } else if j > 2 + params.len() {
            assert(payload[j] == uri[j - 3 - params.len()]);
        }
    }
    lemma_string_end_at(input, i + 2, stop);
    assert(input.subrange(i + 2, stop) =~= payload);
    lemma_one_sequence(before, sequence, after, stop_at_newline);
    lemma_position_at(payload, 2, 2 + params.len() as int);
    assert(payload.skip(3 + params.len() as int) =~= uri);
    let start = ParseModel { text: before, ..ParseModel::initial() };
    let read = start.read(Token::Command(payload));
    assert(read.text + after =~= after);
    assert((ParseModel { text: read.text + after, ..read }).flushed().runs =~= two_runs(
        (before, crate::sgr::initial_sgr(), None),
        (after, read.sgr, read.link),
    ));
}

proof fn lemma_position_at(text: Seq<char>, i: int, place: int)
    requires
        0 <= i <= place < text.len(),
        text[place] == ';',
        forall|k: int| i <= k < place ==> #[trigger] text[k] != ';',
    ensures
        position_of(text, ';', i) == place,
    decreases place - i,
{
    if i < place {
        lemma_position_at(text, i + 1, place);
    }
}

/// A sequence of two characters, an escape and one that starts nothing longer, is taken out
/// of the text; one that selects a character set takes the next character with it.
pub proof fn lemma_short_escape_is_taken_out(
    before: Seq<char>,
    sequence: Seq<char>,
    after: Seq<char>,
    stop_at_newline: bool,
)
    requires
        is_plain_line(before),
        is_plain_line(after),
        sequence.len() == 2 || sequence.len() == 3,
        sequence[0] == '\u{1b}',
        !seq!['[', ']', 'P', '_', '^', 'X'].contains(sequence[1]),
        seq!['(', ')', '*', '+'].contains(sequence[1]) == (sequence.len() == 3),
    ensures
        ansi_runs(before + sequence + after, stop_at_newline) == one_run(
            before + after,
            crate::sgr::initial_sgr(),
            None,
        ),
{
    let input = before + sequence + after;
    let i: int = before.len() as int;
    let longer = seq!['[', ']', 'P', '_', '^', 'X'];
    let sets = seq!['(', ')', '*', '+'];
    assert(longer[0] == '[' && longer[1] == ']' && longer[2] == 'P' && longer[3] == '_'
        && longer[4] == '^' && longer[5] == 'X');
    assert(sets[0] == '(' && sets[1] == ')' && sets[2] == '*' && sets[3] == '+');
    assert(input[i] == sequence[0] && input[i + 1] == sequence[1]);
    lemma_one_sequence(before, sequence, after, stop_at_newline);
    let read = ParseModel { text: before, ..ParseModel::initial() };
    assert((ParseModel { text: before + after, ..read }).flushed().runs =~= one_run(
        before + after,
        crate::sgr::initial_sgr(),
        None,
    ));
}

/// A device control, application, privacy or start-of-string sequence is not shown, up to
/// the bell or `ESC \` that ends it.
pub proof fn lemma_string_sequence_is_not_shown(
    before: Seq<char>,
    kind: char,
    payload: Seq<char>,
    after: Seq<char>,
    stop_at_newline: bool,
)
    requires
        is_plain_line(before),
        is_plain_line(after),
        kind == 'P' || kind == '_' || kind == '^' || kind == 'X',
        forall|k: int|
            0 <= k < payload.len() ==> #[trigger] payload[k] != '\u{7}' && payload[k]
                != '\u{1b}',
    ensures
        ansi_runs(
            before + (seq!['\u{1b}', kind] + payload + seq!['\u{1b}', '\\']) + after,
            stop_at_newline,
        ) == two_runs(
            (before, crate::sgr::initial_sgr(), None),
            (after, crate::sgr::initial_sgr(), None),
        ),
{
    let sequence = seq!['\u{1b}', kind] + payload + seq!['\u{1b}', '\\'];
    let input = before + sequence + after;
    let i: int = before.len() as int;
    let stop: int = i + 2 + payload.len();
    assert(input[i] == sequence[0] && input[i + 1] == sequence[1]);
    assert(input[stop] == sequence[2 + payload.len() as int]);
    assert(input[stop + 1] == sequence[3 + payload.len() as int]);
    assert forall|k: int| i + 2 <= k < stop implies #[trigger] input[k] != '\u{7}' && input[k]
        != '\u{1b}' by {
        assert(input[k] == payload[k - i - 2]);
    }
    lemma_string_end_at(input, i + 2, stop);
    lemma_one_sequence(before, sequence, after, stop_at_newline);
    let start = ParseModel { text: before, ..ParseModel::initial() };
    let read = start.read(Token::StringSequence);
    assert(read.text + after =~= after);
    assert((ParseModel { text: read.text + after, ..read }).flushed().runs =~= two_runs(
        (before, crate::sgr::initial_sgr(), None),
        (after, crate::sgr::initial_sgr(), None),
    ));
}

/// Wherever a style sequence stands, what was read before it is a run in the look that was active,
/// and what follows is read in the look that its parameters make of that one. The link stays.
pub proof fn lemma_style_sequence_anywhere(
    input: Seq<char>,
    i: int,
    end: int,
    stop_at_newline: bool,
    found: ParseModel,
)
    requires
        0 <= i,
        i + 2 <= end < input.len(),
        input[i] == '\u{1b}' && input[i + 1] == '[' && input[end] == 'm',
        forall|k: int| i + 2 <= k < end ==> !('@' <= #[trigger] input[k] <= '~'),
    ensures
        parsed_from(input, i, stop_at_newline, found) == parsed_from(
            input,
            end + 1,
            stop_at_newline,
            ParseModel {
                runs: found.runs + one_run(found.text, found.sgr, found.link),
                text: Seq::empty(),
                sgr: crate::sgr::sgr_applied(
                    found.sgr,
                    crate::sgr::params_of(input.subrange(i + 2, end)),
                    0,
                ),
                link: found.link,
            },
        ),
{
    lemma_csi_final_at(input, i + 2, end);
    lemma_flushed_runs(found);
}

proof fn lemma_flushed_runs(found: ParseModel)
    ensures
        found.flushed().runs == found.runs + one_run(found.text, found.sgr, found.link),
        found.flushed().text == Seq::<char>::empty(),
        found.flushed().sgr == found.sgr && found.flushed().link == found.link,
{
    assert(found.flushed().runs =~= found.runs + one_run(found.text, found.sgr, found.link));
    assert(found.flushed().text =~= Seq::<char>::empty());
}

/// Wherever another control sequence stands, what follows is read as if it were not there.
pub proof fn lemma_other_sequence_anywhere(
    input: Seq<char>,
    i: int,
    end: int,
    stop_at_newline: bool,
    found: ParseModel,
)
    requires
        0 <= i,
        i + 2 <= end < input.len(),
        input[i] == '\u{1b}' && input[i + 1] == '[' && input[end] != 'm',
        '@' <= input[end] <= '~',
        forall|k: int| i + 2 <= k < end ==> !('@' <= #[trigger] input[k] <= '~'),
    ensures
        parsed_from(input, i, stop_at_newline, found) == parsed_from(
            input,
            end + 1,
            stop_at_newline,
            found,
        ),
{
    lemma_csi_final_at(input, i + 2, end);
}

/// Wherever a hyperlink sequence stands, what was read before it is a run with the link that was
/// active, and what follows is linked to its address, or not at all where that is empty. The style
/// stays.
pub proof fn lemma_link_sequence_anywhere(
    input: Seq<char>,
    i: int,
    separator: int,
    end: int,
    stop_at_newline: bool,
    found: ParseModel,
)
    requires
        0 <= i,
        i + 4 <= separator < end < input.len(),
        input[i] == '\u{1b}' && input[i + 1] == ']' && input[i + 2] == '8' && input[i + 3] == ';',
        input[separator] == ';',
        forall|k: int| i + 4 <= k < separator ==> #[trigger] input[k] != ';',
        input[end] == '\u{7}' || (input[end] == '\u{1b}' && end + 1 < input.len() && input[end + 1]
            == '\\'),
        forall|k: int| i + 2 <= k < end ==> #[trigger] input[k] != '\u{7}' && input[k] != '\u{1b}',
    ensures
        parsed_from(input, i, stop_at_newline, found) == parsed_from(
            input,
            if input[end] == '\u{7}' {
                end + 1
            } else {
                end + 2
            },
            stop_at_newline,
            ParseModel {
                runs: found.runs + one_run(found.text, found.sgr, found.link),
                text: Seq::empty(),
                sgr: found.sgr,
                link: if separator + 1 == end {
                    None
                } else {
                    Some(input.subrange(separator + 1, end))
                },
            },
        ),
{
    lemma_string_end_at(input, i + 2, end);
    lemma_flushed_runs(found);
    let payload = input.subrange(i + 2, end);
    let place: int = separator - i - 2;
    assert(payload[0] == input[i + 2] && payload[1] == input[i + 3]);
    assert(payload[place] == input[separator]);
    assert forall|k: int| 2 <= k < place implies #[trigger] payload[k] != ';' by {
        assert(payload[k] == input[i + 2 + k]);
    }
    lemma_position_at(payload, 2, place);
    assert(payload.skip(place + 1) =~= input.subrange(separator + 1, end));
}

/// A character that is neither an escape nor a line end that stops parsing is shown, wherever it
/// stands, in the look that is active; at a line end that stops it, and at the end of the text,
/// what was read is complete.
pub proof fn lemma_character_anywhere(
    input: Seq<char>,
    i: int,
    stop_at_newline: bool,
    found: ParseModel,
)
    requires
        0 <= i <= input.len(),
    ensures
        i < input.len() && input[i] != '\u{1b}' && !(stop_at_newline && (input[i] == '\n'
            || input[i] == '\r')) ==> parsed_from(input, i, stop_at_newline, found) == parsed_from(
            input,
            i + 1,
            stop_at_newline,
            ParseModel { text: found.text.push(input[i]), ..found },
        ),
        i == input.len() || (stop_at_newline && (input[i] == '\n' || input[i] == '\r'))
            ==> parsed_from(input, i, stop_at_newline, found).runs == found.runs + one_run(
            found.text,
            found.sgr,
            found.link,
        ),
{
    lemma_flushed_runs(found);
}

/// A sequence that does not end hides the rest of the text: what was read before it is complete.
pub proof fn lemma_unfinished_sequence_hides_the_rest(
    input: Seq<char>,
    i: int,
    stop_at_newline: bool,
    found: ParseModel,
)
    requires
        0 <= i,
        i + 1 < input.len(),
        input[i] == '\u{1b}',
        input[i + 1] == '[' ==> forall|k: int|
            i + 2 <= k < input.len() ==> !('@' <= #[trigger] input[k] <= '~'),
        input[i + 1] != '[' ==> (input[i + 1] == ']' || input[i + 1] == 'P' || input[i + 1] == '_'
            || input[i + 1] == '^' || input[i + 1] == 'X') && forall|k: int|
            i + 2 <= k < input.len() ==> #[trigger] input[k] != '\u{7}' && input[k] != '\\',
    ensures
        parsed_from(input, i, stop_at_newline, found).runs == found.runs + one_run(
            found.text,
            found.sgr,
            found.link,
        ),
{
    lemma_flushed_runs(found);
    if input[i + 1] == '[' {
        lemma_no_csi_final(input, i + 2);
    } else {
        lemma_no_string_end(input, i + 2);
    }
}

proof fn lemma_no_csi_final(input: Seq<char>, i: int)
    requires
        0 <= i,
        forall|k: int| i <= k < input.len() ==> !('@' <= #[trigger] input[k] <= '~'),
    ensures
        csi_final(input, i) is None,
    decreases input.len() - i,
{
    if i < input.len() {
        lemma_no_csi_final(input, i + 1);
    }
}

proof fn lemma_no_string_end(input: Seq<char>, i: int)
    requires
        0 <= i,
        forall|k: int| i <= k < input.len() ==> #[trigger] input[k] != '\u{7}' && input[k]
            != '\\',
    ensures
        string_end(input, i) is None,
    decreases input.len() - i,
{
    if i < input.len() {
        if i + 1 < input.len() {
            assert(input[i + 1] != '\\');
        }
        lemma_no_string_end(input, i + 1);
    }
}

} // verus!
