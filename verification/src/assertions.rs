//! Retrying assertions.
//!
//! An [`Expectation`] is configured with a timeout, a poll interval and a
//! negation flag, and is then turned into an assertion on a state of the
//! element or on its text. The assertion itself does no waiting: it is
//! asked to judge one observation at a time and answers with the next
//! [`Step`]. Whoever drives it observes, asks, and sleeps when told to.

use crate::error::Error;
use crate::pattern::{error_text, regex_compiled, regex_error_text, regex_is_match};
use crate::protocol::locator::{Locator, LocatorView};
use crate::text::{contains, occurs_in, same, trim, trimmed};
use crate::time::{debug_text, duration_debug_text, duration_nanos};
use regex::Error as PatternFault;
use regex::Regex;
use std::time::Duration;
use vstd::prelude::*;
use vstd::string::StringExecFns;

verus! {

/// The timeout of an assertion that was given none, in milliseconds.
pub const DEFAULT_ASSERTION_TIMEOUT_MS: u64 = 5000;

/// The pause between two polls of an assertion that was given none, in
/// milliseconds.
pub const DEFAULT_POLL_INTERVAL_MS: u64 = 100;

/// A state of an element that an assertion can wait for.
#[derive(Debug, Clone, Copy, PartialEq, Eq, Structural)]
pub enum ElementState {
    Visible,
    Enabled,
    Checked,
    Editable,
    Focused,
}

/// Which text of an element an assertion reads.
#[derive(Debug, Clone, Copy, PartialEq, Eq, Structural)]
pub enum Subject {
    /// The rendered text of an element.
    Text,
    /// The value of an input.
    Value,
}

/// How the text that was read is compared.
#[derive(Debug)]
pub enum Matcher {
    /// The text equals the expected text.
    Exact(String),
    /// The text contains the expected text.
    Contains(String),
    /// The pattern matches somewhere in the text; reported as a match.
    Matches(String, Regex),
    /// The pattern matches somewhere in the text; reported as containment.
    ContainsMatch(String, Regex),
}

/// What a [`Matcher`] holds.
pub enum MatcherView {
    Exact(Seq<char>),
    Contains(Seq<char>),
    Matches(Seq<char>, Regex),
    ContainsMatch(Seq<char>, Regex),
}

impl View for Matcher {
    type V = MatcherView;

    open spec fn view(&self) -> MatcherView {
        match self {
            Matcher::Exact(expected) => MatcherView::Exact(expected@),
            Matcher::Contains(expected) => MatcherView::Contains(expected@),
            Matcher::Matches(pattern, re) => MatcherView::Matches(pattern@, *re),
            Matcher::ContainsMatch(pattern, re) => MatcherView::ContainsMatch(pattern@, *re),
        }
    }
}

impl MatcherView {
    /// The expected text, or the source of the pattern.
    pub open spec fn expected(self) -> Seq<char> {
        match self {
            MatcherView::Exact(expected) => expected,
            MatcherView::Contains(expected) => expected,
            MatcherView::Matches(pattern, _) => pattern,
            MatcherView::ContainsMatch(pattern, _) => pattern,
        }
    }

    /// Whether the matcher is a pattern.
    pub open spec fn is_pattern(self) -> bool {
        self is Matches || self is ContainsMatch
    }

    /// Whether the matcher accepts the text.
    pub open spec fn accepts(self, observed: Seq<char>) -> bool {
        match self {
            MatcherView::Exact(expected) => observed == expected,
            MatcherView::Contains(expected) => occurs_in(expected, observed),
            MatcherView::Matches(_, re) => regex_is_match(re, observed),
            MatcherView::ContainsMatch(_, re) => regex_is_match(re, observed),
        }
    }
}

/// What an assertion asks its driver to do after one observation.
#[derive(Debug, PartialEq, Eq)]
pub enum Step {
    /// The assertion holds: stop.
    Pass,
    /// Not yet, and the deadline has not passed: sleep this long, then
    /// observe again.
    Retry(Duration),
    /// Not satisfied and the deadline has passed: stop with this failure.
    Fail(Error),
}

/// How an assertion ends on a recorded run of observations.
#[derive(Debug, Clone, PartialEq, Eq)]
pub enum Outcome {
    /// Satisfied by the last of `polls` observations.
    Passed { polls: usize },
    /// Gave up at the last of `polls` observations.
    Failed { polls: usize, error: Error },
    /// The observations ran out before the assertion was settled.
    Undecided,
}

/// One poll as the retry loop sees it: whether the observation satisfied
/// the assertion, and how much time had passed when it was judged.
pub struct Poll {
    pub satisfied: bool,
    pub elapsed: nat,
}

/// Whether `step` is the step owed after an observation: pass when it
/// satisfied the assertion; else fail with `message` once `elapsed` has
/// reached `timeout`; else retry after `poll_interval`.
pub open spec fn step_after(
    step: Step,
    poll: Poll,
    timeout: nat,
    poll_interval: nat,
    message: Seq<char>,
) -> bool {
    if poll.satisfied {
        step is Pass
    } else if poll.elapsed >= timeout {
        step matches Step::Fail(Error::AssertionTimeout(m)) && m@ == message
    } else {
        step matches Step::Retry(pause) && duration_nanos(pause) == poll_interval
    }
}

/// Whether the retry loop gets as far as poll `i`: no earlier poll
/// satisfied the assertion or reached the deadline.
pub open spec fn still_polling(polls: Seq<Poll>, timeout: nat, i: int) -> bool {
    forall|j: int| 0 <= j < i ==> !(#[trigger] polls[j]).satisfied && polls[j].elapsed < timeout
}

/// Whether the retry loop ends with success at poll `i`.
pub open spec fn passes_at(polls: Seq<Poll>, timeout: nat, i: int) -> bool {
    &&& 0 <= i < polls.len()
    &&& still_polling(polls, timeout, i)
    &&& polls[i].satisfied
}

/// Whether the retry loop gives up at poll `i`.
pub open spec fn times_out_at(polls: Seq<Poll>, timeout: nat, i: int) -> bool {
    &&& 0 <= i < polls.len()
    &&& still_polling(polls, timeout, i)
    &&& !polls[i].satisfied
    &&& polls[i].elapsed >= timeout
}

/// Whether the retry loop ends with success on these polls.
pub open spec fn succeeds(polls: Seq<Poll>, timeout: nat) -> bool {
    exists|i: int| passes_at(polls, timeout, i)
}

/// Whether `outcome` is how the retry loop ends on these polls, where
/// `message(i)` is the failure text owed if it gives up at poll `i`.
pub open spec fn outcome_of(
    outcome: Outcome,
    polls: Seq<Poll>,
    timeout: nat,
    message: spec_fn(int) -> Seq<char>,
) -> bool {
    match outcome {
        Outcome::Passed { polls: n } => passes_at(polls, timeout, n - 1),
        Outcome::Failed { polls: n, error } => {
            &&& times_out_at(polls, timeout, n - 1)
            &&& error matches Error::AssertionTimeout(m)
            &&& m@ == message(n - 1)
        },
        Outcome::Undecided => still_polling(polls, timeout, polls.len() as int),
    }
}

/// The word for a state in failure messages.
pub open spec fn state_word(state: ElementState) -> Seq<char> {
    match state {
        ElementState::Visible => "visible"@,
        ElementState::Enabled => "enabled"@,
        ElementState::Checked => "checked"@,
        ElementState::Editable => "editable"@,
        ElementState::Focused => "focused"@,
    }
}

fn word(state: ElementState) -> (w: &'static str)
    ensures
        w@ == state_word(state),
{
    match state {
        ElementState::Visible => "visible",
        ElementState::Enabled => "enabled",
        ElementState::Checked => "checked",
        ElementState::Editable => "editable",
        ElementState::Focused => "focused",
    }
}

/// What an [`Expectation`] holds; times are in nanoseconds.
pub struct ExpectationView {
    pub target: LocatorView,
    pub timeout: nat,
    pub poll_interval: nat,
    pub negate: bool,
}

/// What a [`StateAssertion`] holds; times are in nanoseconds.
pub struct StateAssertionView {
    pub target: LocatorView,
    pub state: ElementState,
    pub negate: bool,
    pub timeout: nat,
    pub poll_interval: nat,
}

/// What a [`TextAssertion`] holds; times are in nanoseconds.
pub struct TextAssertionView {
    pub target: LocatorView,
    pub subject: Subject,
    pub matcher: MatcherView,
    pub negate: bool,
    pub timeout: nat,
    pub poll_interval: nat,
}

impl ExpectationView {
    /// The assertion that the element is in `state`, negated if the
    /// expectation is.
    pub open spec fn state(self, state: ElementState) -> StateAssertionView {
        StateAssertionView {
            target: self.target,
            state,
            negate: self.negate,
            timeout: self.timeout,
            poll_interval: self.poll_interval,
        }
    }

    /// The assertion that the element is not in `state`: the assertion on
    /// `state` with the negation flipped.
    pub open spec fn opposite(self, state: ElementState) -> StateAssertionView {
        StateAssertionView { negate: !self.negate, ..self.state(state) }
    }

    /// The expectation after `not()`.
    pub open spec fn negated(self) -> ExpectationView {
        ExpectationView { negate: true, ..self }
    }

    /// The assertion that compares the text of `subject` with `matcher`,
    /// negated if the expectation is.
    pub open spec fn text(self, subject: Subject, matcher: MatcherView) -> TextAssertionView {
        TextAssertionView {
            target: self.target,
            subject,
            matcher,
            negate: self.negate,
            timeout: self.timeout,
            poll_interval: self.poll_interval,
        }
    }
}

impl StateAssertionView {
    /// Whether an observation satisfies the assertion.
    pub open spec fn satisfied_by(self, actual: bool) -> bool {
        actual != self.negate
    }

    /// The text of the failure when the deadline passes.
    pub open spec fn failure_message(self) -> Seq<char> {
        if self.negate {
            "Expected element '"@ + self.target.selector + "' NOT to be "@ + state_word(self.state)
                + ", but it was "@ + state_word(self.state) + " after "@ + duration_debug_text(
                self.timeout,
            )
        } else {
            "Expected element '"@ + self.target.selector + "' to be "@ + state_word(self.state)
                + ", but it was not "@ + state_word(self.state) + " after "@ + duration_debug_text(
                self.timeout,
            )
        }
    }

    /// One observation as the retry loop sees it.
    pub open spec fn poll(self, actual: bool, elapsed: nat) -> Poll {
        Poll { satisfied: self.satisfied_by(actual), elapsed }
    }

    /// A run of observations, each with the time that had passed, as the
    /// retry loop sees it.
    pub open spec fn polls(self, observations: Seq<(bool, nat)>) -> Seq<Poll> {
        Seq::new(observations.len(), |i: int| self.poll(observations[i].0, observations[i].1))
    }
}

impl TextAssertionView {
    /// The text that is compared and reported: what was read, trimmed,
    /// except that a pattern is matched against the value of an input as
    /// it stands.
    pub open spec fn observed(self, raw: Seq<char>) -> Seq<char> {
        if self.subject == Subject::Value && self.matcher.is_pattern() {
            raw
        } else {
            trimmed(raw)
        }
    }

    /// Whether text that was read satisfies the assertion.
    pub open spec fn satisfied_by(self, raw: Seq<char>) -> bool {
        self.matcher.accepts(self.observed(raw)) != self.negate
    }

    /// What the element is called in failure messages.
    pub open spec fn noun(self) -> Seq<char> {
        match self.subject {
            Subject::Text => "element"@,
            Subject::Value => "input"@,
        }
    }

    /// What is expected of the text, as failure messages put it.
    pub open spec fn phrase(self) -> Seq<char> {
        match self.matcher {
            MatcherView::Exact(_) => match self.subject {
                Subject::Text => "to have text"@,
                Subject::Value => "to have value"@,
            },
            MatcherView::Contains(_) => "to contain text"@,
            MatcherView::Matches(_, _) => "to match pattern"@,
            MatcherView::ContainsMatch(_, _) => "to contain pattern"@,
        }
    }

    /// The text of the failure when the deadline passes and `observed` is
    /// what was compared last.
    pub open spec fn failure_message(self, observed: Seq<char>) -> Seq<char> {
        if self.negate {
            "Expected "@ + self.noun() + " '"@ + self.target.selector + "' NOT "@ + self.phrase()
                + " '"@ + self.matcher.expected() + "', but it did after "@ + duration_debug_text(
                self.timeout,
            )
        } else {
            "Expected "@ + self.noun() + " '"@ + self.target.selector + "' "@ + self.phrase()
                + " '"@ + self.matcher.expected() + "', but had '"@ + observed + "' after "@
                + duration_debug_text(self.timeout)
        }
    }

    /// One observation as the retry loop sees it.
    pub open spec fn poll(self, raw: Seq<char>, elapsed: nat) -> Poll {
        Poll { satisfied: self.satisfied_by(raw), elapsed }
    }

    /// A run of observations, each with the time that had passed, as the
    /// retry loop sees it.
    pub open spec fn polls(self, observations: Seq<(Seq<char>, nat)>) -> Seq<Poll> {
        Seq::new(observations.len(), |i: int| self.poll(observations[i].0, observations[i].1))
    }
}

/// Recorded observations of a state with their times in nanoseconds.
pub open spec fn state_record(observations: Seq<(bool, Duration)>) -> Seq<(bool, nat)> {
    Seq::new(observations.len(), |i: int| (observations[i].0, duration_nanos(observations[i].1)))
}

/// Recorded observations of a text with their times in nanoseconds.
pub open spec fn text_record(observations: Seq<(String, Duration)>) -> Seq<(Seq<char>, nat)> {
    Seq::new(
        observations.len(),
        |i: int| (observations[i].0@, duration_nanos(observations[i].1)),
    )
}

/// An assertion in the making: the element it is about and how long and
/// how often to look.
#[derive(Debug)]
pub struct Expectation {
    locator: Locator,
    timeout: Duration,
    poll_interval: Duration,
    negate: bool,
}

impl View for Expectation {
    type V = ExpectationView;

    closed spec fn view(&self) -> ExpectationView {
        ExpectationView {
            target: self.locator@,
            timeout: duration_nanos(self.timeout),
            poll_interval: duration_nanos(self.poll_interval),
            negate: self.negate,
        }
    }
}

/// An expectation on the elements that `locator` finds, with the default
/// timeout of five seconds and a poll every hundred milliseconds.
pub fn expect(locator: Locator) -> (expectation: Expectation)
    ensures
        expectation@ == (ExpectationView {
            target: locator@,
            timeout: 5_000_000_000,
            poll_interval: 100_000_000,
            negate: false,
        }),
{
    Expectation::new(locator)
}

impl Expectation {
    /// An expectation on the elements that `locator` finds, with the
    /// default timeout and poll interval, not negated.
    pub fn new(locator: Locator) -> (expectation: Expectation)
        ensures
            expectation@ == (ExpectationView {
                target: locator@,
                timeout: 5_000_000_000,
                poll_interval: 100_000_000,
                negate: false,
            }),
    {
        Expectation {
            locator,
            timeout: Duration::from_millis(DEFAULT_ASSERTION_TIMEOUT_MS),
            poll_interval: Duration::from_millis(DEFAULT_POLL_INTERVAL_MS),
            negate: false,
        }
    }

    /// The same expectation with another timeout.
    pub fn with_timeout(self, timeout: Duration) -> (expectation: Expectation)
        ensures
            expectation@ == (ExpectationView { timeout: duration_nanos(timeout), ..self@ }),
    {
        Expectation { timeout, ..self }
    }

    /// The same expectation with another pause between polls.
    pub fn with_poll_interval(self, interval: Duration) -> (expectation: Expectation)
        ensures
            expectation@ == (ExpectationView { poll_interval: duration_nanos(interval), ..self@ }),
    {
        Expectation { poll_interval: interval, ..self }
    }

    /// The expectation that the assertion made from it does not hold.
    /// Negating twice is negating once.
    pub fn not(self) -> (expectation: Expectation)
        ensures
            expectation@ == self@.negated(),
    {
        Expectation { negate: true, ..self }
    }

    /// The locator that the expectation is about.
    pub fn locator(&self) -> (locator: &Locator)
        ensures
            locator@ == self@.target,
    {
        &self.locator
    }

    /// How long the assertion keeps polling.
    pub fn timeout(&self) -> (timeout: Duration)
        ensures
            duration_nanos(timeout) == self@.timeout,
    {
        self.timeout
    }

    /// How long the assertion pauses between polls.
    pub fn poll_interval(&self) -> (interval: Duration)
        ensures
            duration_nanos(interval) == self@.poll_interval,
    {
        self.poll_interval
    }

    /// Whether the expectation is negated.
    pub fn is_negated(&self) -> (negate: bool)
        ensures
            negate == self@.negate,
    {
        self.negate
    }

    fn on_state(self, state: ElementState, flip: bool) -> (assertion: StateAssertion)
        ensures
            assertion@ == if flip {
                self@.opposite(state)
            } else {
                self@.state(state)
            },
    {
        StateAssertion {
            locator: self.locator,
            state,
            negate: self.negate != flip,
            timeout: self.timeout,
            poll_interval: self.poll_interval,
        }
    }

    fn on_text(self, subject: Subject, matcher: Matcher) -> (assertion: TextAssertion)
        ensures
            assertion@ == self@.text(subject, matcher@),
    {
        TextAssertion {
            locator: self.locator,
            subject,
            matcher,
            negate: self.negate,
            timeout: self.timeout,
            poll_interval: self.poll_interval,
        }
    }

    /// Asserts that the element is visible.
    pub fn to_be_visible(self) -> (assertion: StateAssertion)
        ensures
            assertion@ == self@.state(ElementState::Visible),
    {
        self.on_state(ElementState::Visible, false)
    }

    /// Asserts that the element is hidden: that it is visible, with the
    /// negation flipped.
    pub fn to_be_hidden(self) -> (assertion: StateAssertion)
        ensures
            assertion@ == self@.opposite(ElementState::Visible),
    {
        self.on_state(ElementState::Visible, true)
    }

    /// Asserts that the element is enabled.
    pub fn to_be_enabled(self) -> (assertion: StateAssertion)
        ensures
            assertion@ == self@.state(ElementState::Enabled),
    {
        self.on_state(ElementState::Enabled, false)
    }

    /// Asserts that the element is disabled: that it is enabled, with the
    /// negation flipped.
    pub fn to_be_disabled(self) -> (assertion: StateAssertion)
        ensures
            assertion@ == self@.opposite(ElementState::Enabled),
    {
        self.on_state(ElementState::Enabled, true)
    }

    /// Asserts that the checkbox or radio button is checked.
    pub fn to_be_checked(self) -> (assertion: StateAssertion)
        ensures
            assertion@ == self@.state(ElementState::Checked),
    {
        self.on_state(ElementState::Checked, false)
    }

    /// Asserts that the checkbox or radio button is unchecked: that it is
    /// checked, with the negation flipped.
    pub fn to_be_unchecked(self) -> (assertion: StateAssertion)
        ensures
            assertion@ == self@.opposite(ElementState::Checked),
    {
        self.on_state(ElementState::Checked, true)
    }

    /// Asserts that the element is editable.
    pub fn to_be_editable(self) -> (assertion: StateAssertion)
        ensures
            assertion@ == self@.state(ElementState::Editable),
    {
        self.on_state(ElementState::Editable, false)
    }

    /// Asserts that the element has the focus.
    pub fn to_be_focused(self) -> (assertion: StateAssertion)
        ensures
            assertion@ == self@.state(ElementState::Focused),
    {
        self.on_state(ElementState::Focused, false)
    }

    /// Asserts that the text of the element, trimmed, is `expected`,
    /// trimmed.
    pub fn to_have_text(self, expected: &str) -> (assertion: TextAssertion)
        ensures
            assertion@ == self@.text(Subject::Text, MatcherView::Exact(trimmed(expected@))),
    {
        let wanted = trim(expected).to_owned();
        self.on_text(Subject::Text, Matcher::Exact(wanted))
    }

    /// Asserts that the text of the element, trimmed, contains `expected`.
    pub fn to_contain_text(self, expected: &str) -> (assertion: TextAssertion)
        ensures
            assertion@ == self@.text(Subject::Text, MatcherView::Contains(expected@)),
    {
        self.on_text(Subject::Text, Matcher::Contains(expected.to_owned()))
    }

    /// Asserts that the value of the input, trimmed, is `expected`,
    /// trimmed.
    pub fn to_have_value(self, expected: &str) -> (assertion: TextAssertion)
        ensures
            assertion@ == self@.text(Subject::Value, MatcherView::Exact(trimmed(expected@))),
    {
        let wanted = trim(expected).to_owned();
        self.on_text(Subject::Value, Matcher::Exact(wanted))
    }

    /// The assertion that `pattern` matches the text of `subject`, given
    /// what compiling the pattern gave: the assertion, reported as
    /// containment if `containing`, or `InvalidArgument` with the
    /// compiler's complaint.
    pub fn with_pattern(
        self,
        subject: Subject,
        containing: bool,
        pattern: &str,
        compiled: Result<Regex, PatternFault>,
    ) -> (made: Result<TextAssertion, Error>)
        ensures
            match compiled {
                Ok(re) => made matches Ok(assertion) && assertion@ == self@.text(
                    subject,
                    if containing {
                        MatcherView::ContainsMatch(pattern@, re)
                    } else {
                        MatcherView::Matches(pattern@, re)
                    },
                ),
                Err(fault) => made matches Err(Error::InvalidArgument(m)) && m@
                    == "Invalid regex: "@ + regex_error_text(fault),
            },
    {
        match compiled {
            Ok(re) => {
                let matcher = if containing {
                    Matcher::ContainsMatch(pattern.to_owned(), re)
                } else {
                    Matcher::Matches(pattern.to_owned(), re)
                };
                Ok(self.on_text(subject, matcher))
            },
            Err(fault) => {
                let mut message = String::from_str("Invalid regex: ");
                message.append(error_text(&fault).as_str());
                Err(Error::InvalidArgument(message))
            },
        }
    }

    /// Asserts that `pattern` matches the text of the element, trimmed.
    /// A pattern that does not compile is refused here, before anything
    /// is observed.
    pub fn to_have_text_regex(self, pattern: &str) -> (made: Result<TextAssertion, Error>)
        ensures
            match regex_compiled(pattern@) {
                Ok(re) => made matches Ok(assertion) && assertion@ == self@.text(
                    Subject::Text,
                    MatcherView::Matches(pattern@, re),
                ),
                Err(fault) => made matches Err(Error::InvalidArgument(m)) && m@
                    == "Invalid regex: "@ + regex_error_text(fault),
            },
    {
        let compiled = Regex::new(pattern);
        self.with_pattern(Subject::Text, false, pattern, compiled)
    }

    /// Asserts that the text of the element, trimmed, contains a match of
    /// `pattern`. A pattern that does not compile is refused here, before
    /// anything is observed.
    pub fn to_contain_text_regex(self, pattern: &str) -> (made: Result<TextAssertion, Error>)
        ensures
            match regex_compiled(pattern@) {
                Ok(re) => made matches Ok(assertion) && assertion@ == self@.text(
                    Subject::Text,
                    MatcherView::ContainsMatch(pattern@, re),
                ),
                Err(fault) => made matches Err(Error::InvalidArgument(m)) && m@
                    == "Invalid regex: "@ + regex_error_text(fault),
            },
    {
        let compiled = Regex::new(pattern);
        self.with_pattern(Subject::Text, true, pattern, compiled)
    }

    /// Asserts that `pattern` matches the value of the input as it
    /// stands. A pattern that does not compile is refused here, before
    /// anything is observed.
    pub fn to_have_value_regex(self, pattern: &str) -> (made: Result<TextAssertion, Error>)
        ensures
            match regex_compiled(pattern@) {
                Ok(re) => made matches Ok(assertion) && assertion@ == self@.text(
                    Subject::Value,
                    MatcherView::Matches(pattern@, re),
                ),
                Err(fault) => made matches Err(Error::InvalidArgument(m)) && m@
                    == "Invalid regex: "@ + regex_error_text(fault),
            },
    {
        let compiled = Regex::new(pattern);
        self.with_pattern(Subject::Value, false, pattern, compiled)
    }
}

/// An assertion on a state of an element, ready to judge observations.
#[derive(Debug)]
pub struct StateAssertion {
    locator: Locator,
    state: ElementState,
    negate: bool,
    timeout: Duration,
    poll_interval: Duration,
}

impl View for StateAssertion {
    type V = StateAssertionView;

    closed spec fn view(&self) -> StateAssertionView {
        StateAssertionView {
            target: self.locator@,
            state: self.state,
            negate: self.negate,
            timeout: duration_nanos(self.timeout),
            poll_interval: duration_nanos(self.poll_interval),
        }
    }
}

impl StateAssertion {
    /// The locator of the element to observe.
    pub fn locator(&self) -> (locator: &Locator)
        ensures
            locator@ == self@.target,
    {
        &self.locator
    }

    /// The state to observe.
    pub fn state(&self) -> (state: ElementState)
        ensures
            state == self@.state,
    {
        self.state
    }

    /// Whether the assertion is that the element is not in the state.
    pub fn is_negated(&self) -> (negate: bool)
        ensures
            negate == self@.negate,
    {
        self.negate
    }

    fn failure(&self) -> (message: String)
        ensures
            message@ == self@.failure_message(),
    {
        let mut message = String::from_str("Expected element '");
        message.append(self.locator.selector());
        if self.negate {
            message.append("' NOT to be ");
            message.append(word(self.state));
            message.append(", but it was ");
        } else {
            message.append("' to be ");
            message.append(word(self.state));
            message.append(", but it was not ");
        }
        message.append(word(self.state));
        message.append(" after ");
        message.append(debug_text(&self.timeout).as_str());
        message
    }

    /// Judges one observation: `actual` is whether the element was in the
    /// state, `elapsed` the time since the assertion began.
    pub fn check(&self, actual: bool, elapsed: Duration) -> (step: Step)
        ensures
            step_after(
                step,
                self@.poll(actual, duration_nanos(elapsed)),
                self@.timeout,
                self@.poll_interval,
                self@.failure_message(),
            ),
    {
        if actual != self.negate {
            Step::Pass
        } else if elapsed.as_nanos() >= self.timeout.as_nanos() {
            Step::Fail(Error::AssertionTimeout(self.failure()))
        } else {
            Step::Retry(self.poll_interval)
        }
    }

    /// Runs the retry loop over recorded observations, each with the time
    /// that had passed when it was made, and says how the assertion ends.
    pub fn evaluate(&self, observations: &Vec<(bool, Duration)>) -> (outcome: Outcome)
        ensures
            outcome_of(
                outcome,
                self@.polls(state_record(observations@)),
                self@.timeout,
                |i: int| self@.failure_message(),
            ),
    {
        let ghost polls = self@.polls(state_record(observations@));
        let mut i: usize = 0;
        while i < observations.len()
            invariant
                i <= observations.len(),
                polls == self@.polls(state_record(observations@)),
                still_polling(polls, self@.timeout, i as int),
            decreases observations.len() - i,
        {
            let step = self.check(observations[i].0, observations[i].1);
            match step {
                Step::Pass => {
                    return Outcome::Passed { polls: i + 1 };
                },
                Step::Fail(error) => {
                    return Outcome::Failed { polls: i + 1, error };
                },
                Step::Retry(_) => {},
            }
            i += 1;
        }
        Outcome::Undecided
    }
}

/// An assertion on a text of an element, ready to judge observations.
#[derive(Debug)]
pub struct TextAssertion {
    locator: Locator,
    subject: Subject,
    matcher: Matcher,
    negate: bool,
    timeout: Duration,
    poll_interval: Duration,
}

impl View for TextAssertion {
    type V = TextAssertionView;

    closed spec fn view(&self) -> TextAssertionView {
        TextAssertionView {
            target: self.locator@,
            subject: self.subject,
            matcher: self.matcher@,
            negate: self.negate,
            timeout: duration_nanos(self.timeout),
            poll_interval: duration_nanos(self.poll_interval),
        }
    }
}

impl TextAssertion {
    /// The locator of the element to observe.
    pub fn locator(&self) -> (locator: &Locator)
        ensures
            locator@ == self@.target,
    {
        &self.locator
    }

    /// Which text of the element to read.
    pub fn subject(&self) -> (subject: Subject)
        ensures
            subject == self@.subject,
    {
        self.subject
    }

    /// Whether the assertion is that the text does not match.
    pub fn is_negated(&self) -> (negate: bool)
        ensures
            negate == self@.negate,
    {
        self.negate
    }

    fn failure(&self, observed: &str) -> (message: String)
        ensures
            message@ == self@.failure_message(observed@),
    {
        let mut message = String::from_str("Expected ");
        match self.subject {
            Subject::Text => message.append("element"),
            Subject::Value => message.append("input"),
        }
        message.append(" '");
        message.append(self.locator.selector());
        if self.negate {
            message.append("' NOT ");
        } else {
            message.append("' ");
        }
        match &self.matcher {
            Matcher::Exact(_) => match self.subject {
                Subject::Text => message.append("to have text"),
                Subject::Value => message.append("to have value"),
            },
            Matcher::Contains(_) => message.append("to contain text"),
            Matcher::Matches(_, _) => message.append("to match pattern"),
            Matcher::ContainsMatch(_, _) => message.append("to contain pattern"),
        }
        message.append(" '");
        match &self.matcher {
            Matcher::Exact(expected) => message.append(expected.as_str()),
            Matcher::Contains(expected) => message.append(expected.as_str()),
            Matcher::Matches(pattern, _) => message.append(pattern.as_str()),
            Matcher::ContainsMatch(pattern, _) => message.append(pattern.as_str()),
        }
        if self.negate {
            message.append("', but it did after ");
        } else {
            message.append("', but had '");
            message.append(observed);
            message.append("' after ");
        }
        message.append(debug_text(&self.timeout).as_str());
        message
    }

    /// Decides the step once the matcher has judged the text: `matched` is
    /// whether it accepted `observed`, the text as it was compared.
    pub fn decide(&self, matched: bool, observed: &str, elapsed: Duration) -> (step: Step)
        ensures
            step_after(
                step,
                Poll { satisfied: matched != self@.negate, elapsed: duration_nanos(elapsed) },
                self@.timeout,
                self@.poll_interval,
                self@.failure_message(observed@),
            ),
    {
        if matched != self.negate {
            Step::Pass
        } else if elapsed.as_nanos() >= self.timeout.as_nanos() {
            Step::Fail(Error::AssertionTimeout(self.failure(observed)))
        } else {
            Step::Retry(self.poll_interval)
        }
    }

    /// Judges one observation: `actual` is the text as it was read,
    /// `elapsed` the time since the assertion began.
    pub fn check(&self, actual: &str, elapsed: Duration) -> (step: Step)
        ensures
            step_after(
                step,
                self@.poll(actual@, duration_nanos(elapsed)),
                self@.timeout,
                self@.poll_interval,
                self@.failure_message(self@.observed(actual@)),
            ),
    {
        let observed = match (&self.subject, &self.matcher) {
            (Subject::Value, Matcher::Matches(_, _)) => actual,
            (Subject::Value, Matcher::ContainsMatch(_, _)) => actual,
            _ => trim(actual),
        };
        let matched = match &self.matcher {
            Matcher::Exact(expected) => same(observed, expected.as_str()),
            Matcher::Contains(expected) => contains(observed, expected.as_str()),
            Matcher::Matches(_, re) => re.is_match(observed),
            Matcher::ContainsMatch(_, re) => re.is_match(observed),
        };
        self.decide(matched, observed, elapsed)
    }

    /// Runs the retry loop over recorded observations, each with the time
    /// that had passed when it was made, and says how the assertion ends.
    pub fn evaluate(&self, observations: &Vec<(String, Duration)>) -> (outcome: Outcome)
        ensures
            outcome_of(
                outcome,
                self@.polls(text_record(observations@)),
                self@.timeout,
                |i: int| self@.failure_message(self@.observed(observations@[i].0@)),
            ),
    {
        let ghost polls = self@.polls(text_record(observations@));
        let mut i: usize = 0;
        while i < observations.len()
            invariant
                i <= observations.len(),
                polls == self@.polls(text_record(observations@)),
                still_polling(polls, self@.timeout, i as int),
            decreases observations.len() - i,
        {
            let step = self.check(observations[i].0.as_str(), observations[i].1);
            match step {
                Step::Pass => {
                    return Outcome::Passed { polls: i + 1 };
                },
                Step::Fail(error) => {
                    return Outcome::Failed { polls: i + 1, error };
                },
                Step::Retry(_) => {},
            }
            i += 1;
        }
        Outcome::Undecided
    }
}

/// Whether poll `i` comes before the deadline has been seen to pass: every
/// earlier observation was made in time.
pub open spec fn in_time(observations: Seq<(bool, nat)>, timeout: nat, i: int) -> bool {
    forall|j: int| 0 <= j < i ==> (#[trigger] observations[j]).1 < timeout
}

/// Whether the state is the same at every poll that the retry loop can
/// come to.
pub open spec fn steady(observations: Seq<(bool, nat)>, timeout: nat) -> bool {
    forall|i: int|
        0 <= i < observations.len() && in_time(observations, timeout, i) ==> (
        #[trigger] observations[i]).0 == observations[0].0
}

/// On the same observations, an assertion on a state or its negation
/// succeeds, and does so at the first poll: a state that is not the one
/// is the other.
pub proof fn lemma_assertion_or_negation_succeeds(
    e: ExpectationView,
    state: ElementState,
    observations: Seq<(bool, nat)>,
)
    requires
        observations.len() > 0,
    ensures
        succeeds(e.state(state).polls(observations), e.timeout) || succeeds(
            e.opposite(state).polls(observations),
            e.timeout,
        ),
{
    let plain = e.state(state).polls(observations);
    let other = e.opposite(state).polls(observations);
    if plain[0].satisfied {
        assert(passes_at(plain, e.timeout, 0));
    } else {
        assert(passes_at(other, e.timeout, 0));
    }
}

/// While the state does not change under the polls, the negated assertion
/// succeeds exactly when the plain one does not succeed within the same
/// timeout. A state that changes between two polls in time lets both
/// succeed, each at its own poll.
pub proof fn lemma_negation_succeeds_iff_plain_does_not(
    e: ExpectationView,
    state: ElementState,
    observations: Seq<(bool, nat)>,
)
    requires
        !e.negate,
        observations.len() > 0,
        steady(observations, e.timeout),
    ensures
        succeeds(e.negated().state(state).polls(observations), e.timeout) <==> !succeeds(
            e.state(state).polls(observations),
            e.timeout,
        ),
{
    let plain = e.state(state).polls(observations);
    let negated = e.negated().state(state).polls(observations);
    assert(e.negated().state(state) == e.opposite(state));
    lemma_assertion_or_negation_succeeds(e, state, observations);
    if succeeds(plain, e.timeout) && succeeds(negated, e.timeout) {
        let i = choose|i: int| passes_at(plain, e.timeout, i);
        let k = choose|k: int| passes_at(negated, e.timeout, k);
        assert forall|j: int| 0 <= j < i implies (#[trigger] observations[j]).1 < e.timeout by {
            assert(plain[j].elapsed < e.timeout);
        }
        assert forall|j: int| 0 <= j < k implies (#[trigger] observations[j]).1 < e.timeout by {
            assert(negated[j].elapsed < e.timeout);
        }
        assert(observations[i].0 == observations[0].0);
        assert(observations[k].0 == observations[0].0);
        assert(plain[i].satisfied && negated[k].satisfied);
    }
}

/// Asserting the opposite of a state is asserting the state after `not()`:
/// `to_be_hidden()` is `not().to_be_visible()`, and so for every state, its
/// steps and its outcome on every run of observations. After `not()`, the
/// opposite is the plain assertion again.
pub proof fn lemma_opposite_is_negation(e: ExpectationView, state: ElementState)
    requires
        !e.negate,
    ensures
        e.opposite(state) == e.negated().state(state),
        e.negated().opposite(state) == e.state(state),
{
}

} // verus!
