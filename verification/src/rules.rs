//! The rule host: the rules that a script registers, and their results
//! against a selection.
//!
//! A rule source is a script that calls the global function `rule` once for
//! each rule: `rule(name, body)` or `rule(name, body, { optional: true })`.
//! `body` is a function; it is kept and called only when the rules are
//! evaluated. What it returns is the rule's outcome: a value that counts as
//! true passes the rule, any other fails it.
//!
//! # Who runs the scripts
//!
//! Nothing here runs a script. A script engine is outside code that may
//! panic on what a script does, and a panic can be held only outside this
//! library. So the program around the library makes the calls into the
//! engine, holds what goes wrong there, and hands back what came of each
//! call as a plain value; every decision is made here:
//!
//! - for a call of `rule`, it looks at the arguments and asks
//!   `decide_registration` what the call does;
//! - after the run of a rule source, it hands how the run ended (`Ran`),
//!   the registrations and the first defect to `JsRules::loaded`;
//! - for an evaluation, it takes the copy of the selection from `project`,
//!   calls each rule's body in the sandbox of the host, and hands what the
//!   calls gave (`Called`) to `JsRules::evaluate`.
//!
//! A rule that takes too long is the engine's to end: `LOOP_LIMIT` is the
//! number of rounds of its loops that one function call of a script is
//! allowed. The program sets it on each sandbox it makes, and hands back a
//! passed limit as what the script threw.
//!
//! # What a rule body is shown
//!
//! The copy of the selection as `project` makes it, as its first argument
//! and as the global `selection`:
//!
//! ```text
//! selection = {
//!   school, version, semesters,
//!   fields:  [{ name, maxUsable, selected, usable, courses: [course, ..] }, ..],
//!   courses: [course, ..]
//! }
//! course = { id, name, tags: [..], semesters: [bool, ..], selected, exam }
//! ```
//!
//! `maxUsable` and `exam` are `null` where the field has no cap and the
//! course no exam role; `exam` is the role's label otherwise.

use vstd::prelude::*;
use boa_engine::Context;
use boa_engine::JsValue;
use crate::course::texts;
use crate::exam::Exam;
use crate::field::field_selected_semesters;
use crate::field::field_usable_semesters;
use crate::field::Field;
use crate::field::FieldView;
use crate::instance::CourseInstance;
use crate::instance::InstanceView;
use crate::structure::flat;
use crate::structure::Structure;
use crate::structure::StructureView;

verus! {

/// What is wrong with a call of the registration function.
#[derive(Debug, PartialEq, Eq, Clone, Copy, Structural)]
pub enum RegistrationDefect {
    /// The call has no argument at all.
    NoArguments,
    /// The call has a name, but no body.
    NoBody,
    /// The second argument is not a function.
    BodyNotCallable,
}

impl RegistrationDefect {
    /// The message of the error that the call throws.
    pub open spec fn spec_message(&self) -> Seq<char> {
        match *self {
            RegistrationDefect::NoArguments => "expected at least 2 arguments but got 0"@,
            RegistrationDefect::NoBody => "expected at least 2 arguments but got 1"@,
            RegistrationDefect::BodyNotCallable => "expected a callable (function)"@,
        }
    }

    /// The number under which the defect is noted while the source runs.
    pub open spec fn spec_code(&self) -> u8 {
        match *self {
            RegistrationDefect::NoArguments => 0,
            RegistrationDefect::NoBody => 1,
            RegistrationDefect::BodyNotCallable => 2,
        }
    }

    /// The defect noted under `code`.
    pub open spec fn spec_from_code(code: u8) -> RegistrationDefect {
        if code == 0 {
            RegistrationDefect::NoArguments
        } else if code == 1 {
            RegistrationDefect::NoBody
        } else {
            RegistrationDefect::BodyNotCallable
        }
    }

    /// The message of the error that the call throws.
    pub fn message(&self) -> (r: &'static str)
        ensures
            r@ == self.spec_message(),
    {
        match self {
            RegistrationDefect::NoArguments => "expected at least 2 arguments but got 0",
            RegistrationDefect::NoBody => "expected at least 2 arguments but got 1",
            RegistrationDefect::BodyNotCallable => "expected a callable (function)",
        }
    }

    /// The number under which the defect is noted while the source runs.
    pub fn code(&self) -> (r: u8)
        ensures
            r == self.spec_code(),
            RegistrationDefect::spec_from_code(r) == *self,
    {
        match self {
            RegistrationDefect::NoArguments => 0,
            RegistrationDefect::NoBody => 1,
            RegistrationDefect::BodyNotCallable => 2,
        }
    }

    /// The defect noted under `code`.
    pub fn from_code(code: u8) -> (r: RegistrationDefect)
        ensures
            r == RegistrationDefect::spec_from_code(code),
    {
        if code == 0 {
            RegistrationDefect::NoArguments
        } else if code == 1 {
            RegistrationDefect::NoBody
        } else {
            RegistrationDefect::BodyNotCallable
        }
    }
}

/// What a registration call gave as its third argument.
#[derive(Debug, PartialEq, Eq, Clone, Copy, Structural)]
pub enum OptionsShape {
    /// The call has no third argument.
    Absent,
    /// The third argument is not an object.
    NotAnObject,
    /// The third argument is an object; its property `optional` is given
    /// where it is a boolean.
    Object(Option<bool>),
}

/// The defect of a registration call with `arguments` arguments, the second
/// of which is a function or not.
pub open spec fn spec_registration_defect(arguments: usize, body_is_callable: bool) -> Option<
    RegistrationDefect,
> {
    if arguments == 0 {
        Some(RegistrationDefect::NoArguments)
    } else if arguments == 1 {
        Some(RegistrationDefect::NoBody)
    } else if !body_is_callable {
        Some(RegistrationDefect::BodyNotCallable)
    } else {
        None
    }
}

/// The defect of a registration call with `arguments` arguments, the second
/// of which is a function or not; none where the call has a name and a
/// function.
pub fn registration_defect(arguments: usize, body_is_callable: bool) -> (r: Option<
    RegistrationDefect,
>)
    ensures
        r == spec_registration_defect(arguments, body_is_callable),
{
    if arguments == 0 {
        Some(RegistrationDefect::NoArguments)
    } else if arguments == 1 {
        Some(RegistrationDefect::NoBody)
    } else if !body_is_callable {
        Some(RegistrationDefect::BodyNotCallable)
    } else {
        None
    }
}

/// Whether a rule registered with the given options is optional: only where
/// the options are an object whose property `optional` is `true`.
pub fn optional_flag(options: OptionsShape) -> (r: bool)
    ensures
        r == (options == OptionsShape::Object(Some(true))),
{
    match options {
        OptionsShape::Object(Some(flag)) => flag,
        _ => false,
    }
}

/// What a call of the registration function does.
#[derive(Debug, PartialEq, Eq, Clone)]
pub enum Registration {
    /// It appends a rule with this name and this mark to the rules, and
    /// answers `undefined`.
    Append { name: String, optional: bool },
    /// It notes the defect and throws a `TypeError` with the defect's
    /// message.
    Refuse(RegistrationDefect),
    /// It hands on what taking the name as text threw.
    HandOn,
}

/// What a `Registration` stands for.
pub enum RegistrationView {
    /// A rule is appended.
    Append { name: Seq<char>, optional: bool },
    /// The call is refused for the defect.
    Refuse(RegistrationDefect),
    /// What taking the name as text threw is handed on.
    HandOn,
}

impl View for Registration {
    type V = RegistrationView;

    open spec fn view(&self) -> RegistrationView {
        match *self {
            Registration::Append { name, optional } => RegistrationView::Append {
                name: name@,
                optional,
            },
            Registration::Refuse(defect) => RegistrationView::Refuse(defect),
            Registration::HandOn => RegistrationView::HandOn,
        }
    }
}

/// What a call of the registration function does, given the number of its
/// arguments, its first argument as text (none where taking it as text
/// threw), whether its second argument is a function, and the shape of its
/// third.
///
/// A call without arguments is refused before anything is looked at. The
/// name is taken next, so what that throws is handed on even where the
/// body is missing. A call without a body, or with a body that is no
/// function, is refused. Any other call appends a rule, optional only
/// where the options say so.
pub open spec fn registration(
    arguments: usize,
    name: Option<Seq<char>>,
    body_is_callable: bool,
    options: OptionsShape,
) -> RegistrationView {
    if arguments == 0 {
        RegistrationView::Refuse(RegistrationDefect::NoArguments)
    } else if name is None {
        RegistrationView::HandOn
    } else if arguments == 1 {
        RegistrationView::Refuse(RegistrationDefect::NoBody)
    } else if !body_is_callable {
        RegistrationView::Refuse(RegistrationDefect::BodyNotCallable)
    } else {
        RegistrationView::Append {
            name: name->0,
            optional: options == OptionsShape::Object(Some(true)),
        }
    }
}

/// The first argument of a registration call as a value of the proofs.
pub open spec fn name_view(name: Option<String>) -> Option<Seq<char>> {
    match name {
        Some(text) => Some(text@),
        None => None,
    }
}

/// What a call of the registration function does: see `registration`. The
/// body of a rule is not called.
pub fn decide_registration(
    arguments: usize,
    name: Option<String>,
    body_is_callable: bool,
    options: OptionsShape,
) -> (r: Registration)
    ensures
        r@ == registration(arguments, name_view(name), body_is_callable, options),
        r is Append ==> arguments >= 2 && body_is_callable && name is Some,
        arguments < 2 ==> !(r is Append),
{
    if arguments == 0 {
        return Registration::Refuse(RegistrationDefect::NoArguments);
    }
    match name {
        None => Registration::HandOn,
        Some(name) => match registration_defect(arguments, body_is_callable) {
            Some(defect) => Registration::Refuse(defect),
            None => Registration::Append { name, optional: optional_flag(options) },
        },
    }
}

/// Why a rule source could not be loaded.
#[derive(Debug, PartialEq, Eq, Clone)]
pub enum RuleLoadError {
    /// The source did not parse, or threw while it ran.
    Script { message: String },
    /// The source called the registration function without a name or
    /// without a function as the rule's body.
    Registration(RegistrationDefect),
}

/// What a `RuleLoadError` stands for.
pub enum LoadErrorView {
    /// The source did not parse, or threw while it ran.
    Script { message: Seq<char> },
    /// The source made a malformed registration call.
    Registration(RegistrationDefect),
}

impl View for RuleLoadError {
    type V = LoadErrorView;

    open spec fn view(&self) -> LoadErrorView {
        match *self {
            RuleLoadError::Script { message } => LoadErrorView::Script { message: message@ },
            RuleLoadError::Registration(defect) => LoadErrorView::Registration(defect),
        }
    }
}

impl RuleLoadError {
    /// The error in words: the script's own error, or the defect of the
    /// registration call.
    pub fn message(&self) -> (r: String)
        ensures
            r@ == match self@ {
                LoadErrorView::Script { message } => message,
                LoadErrorView::Registration(defect) => defect.spec_message(),
            },
    {
        match self {
            RuleLoadError::Script { message } => message.clone(),
            RuleLoadError::Registration(defect) => defect.message().to_owned(),
        }
    }
}

/// A rule as loaded: its name, whether it is optional, and its body.
pub struct Rule {
    name: String,
    optional: bool,
    body: JsValue,
}

/// What a `Rule` stands for.
pub struct RuleView {
    /// The name of the rule.
    pub name: Seq<char>,
    /// Whether the rule is optional.
    pub optional: bool,
    /// The function registered as the rule's body: a value of the script,
    /// of which the proofs know no more than which one it is.
    pub body: JsValue,
}

impl View for Rule {
    type V = RuleView;

    closed spec fn view(&self) -> RuleView {
        RuleView { name: self.name@, optional: self.optional, body: self.body }
    }
}

impl Rule {
    /// The name of the rule.
    pub fn name(&self) -> (r: &str)
        ensures
            r@ == self@.name,
    {
        self.name.as_str()
    }

    /// Whether the rule is optional.
    pub fn is_optional(&self) -> (r: bool)
        ensures
            r == self@.optional,
    {
        self.optional
    }

    /// The function registered as the rule's body.
    pub fn body(&self) -> (r: &JsValue)
        ensures
            *r == self@.body,
    {
        &self.body
    }
}

/// What a sequence of rules stands for.
pub open spec fn rule_views(rules: Seq<Rule>) -> Seq<RuleView> {
    rules.map_values(|r: Rule| r@)
}

/// What the registrations of a rule source stand for.
pub open spec fn registered(entries: Seq<(String, JsValue, bool)>) -> Seq<RuleView> {
    entries.map_values(
        |e: (String, JsValue, bool)| RuleView { name: e.0@, optional: e.2, body: e.1 },
    )
}

/// The words for a call into the script engine that did not come back in
/// order: the engine gave up on the script.
pub open spec fn gave_up_text() -> Seq<char> {
    "the script engine gave up"@
}

/// How the run of a rule source in the script engine ended.
#[derive(Debug, PartialEq, Eq, Clone)]
pub enum Ran {
    /// The source ran to its end.
    Ended,
    /// The source did not parse, threw, or passed a limit of the sandbox;
    /// the text says which.
    Threw(String),
    /// The engine gave up on the source: it did not come back in order.
    GaveUp,
}

/// What a `Ran` stands for.
pub enum RanView {
    /// The source ran to its end.
    Ended,
    /// The source threw.
    Threw(Seq<char>),
    /// The engine gave up on the source.
    GaveUp,
}

impl View for Ran {
    type V = RanView;

    open spec fn view(&self) -> RanView {
        match *self {
            Ran::Ended => RanView::Ended,
            Ran::Threw(message) => RanView::Threw(message@),
            Ran::GaveUp => RanView::GaveUp,
        }
    }
}

/// Whether a rule source is loaded, given how its run ended and the first
/// defect of its registration calls: a defect fails the load, whether or
/// not the source went on after it; otherwise a run that did not come to
/// its end does.
pub open spec fn load_verdict(run: RanView, defect: Option<RegistrationDefect>) -> Result<
    (),
    LoadErrorView,
> {
    match defect {
        Some(defect) => Err(LoadErrorView::Registration(defect)),
        None => match run {
            RanView::Ended => Ok(()),
            RanView::Threw(message) => Err(LoadErrorView::Script { message }),
            RanView::GaveUp => Err(LoadErrorView::Script { message: gave_up_text() }),
        },
    }
}

/// Whether `r` is what the load makes of a run in the sandbox `sandbox`
/// that ended as `run`, made the registrations `entries` and had `defect`
/// as the first defect of its registration calls: the error of the verdict
/// where the load fails, and otherwise a host with that sandbox and exactly
/// the registered rules, each with its name, its mark and its body, in the
/// order of registration.
pub open spec fn ends_as(
    r: Result<JsRules, RuleLoadError>,
    sandbox: Context,
    run: RanView,
    entries: Seq<(String, JsValue, bool)>,
    defect: Option<RegistrationDefect>,
) -> bool {
    match r {
        Ok(host) => load_verdict(run, defect) is Ok && host@ == (HostView {
            sandbox,
            rules: registered(entries),
        }),
        Err(e) => load_verdict(run, defect) == Err::<(), LoadErrorView>(e@),
    }
}

/// The first of the defects noted under `codes`, if there is one.
pub fn first_defect(codes: &Vec<u8>) -> (r: Option<RegistrationDefect>)
    ensures
        r == if codes@.len() > 0 {
            Some(RegistrationDefect::spec_from_code(codes@[0]))
        } else {
            None
        },
{
    if codes.len() > 0 {
        Some(RegistrationDefect::from_code(codes[0]))
    } else {
        None
    }
}

/// The outcome of a rule in one evaluation.
#[derive(Debug, PartialEq, Eq, Clone)]
pub enum Outcome {
    /// The body returned a value that counts as true.
    Passed,
    /// The body returned a value that counts as false.
    Failed,
    /// The body threw.
    Error(RuleRuntimeError),
}

/// The error of a rule whose body threw.
#[derive(Debug, PartialEq, Eq, Clone)]
pub struct RuleRuntimeError {
    name: String,
    message: String,
}

/// What an `Outcome` stands for.
pub enum OutcomeView {
    /// The rule passed.
    Passed,
    /// The rule failed.
    Failed,
    /// The body of the rule `name` threw `message`.
    Error { name: Seq<char>, message: Seq<char> },
}

impl View for RuleRuntimeError {
    type V = (Seq<char>, Seq<char>);

    /// The name of the rule, and what its body threw.
    closed spec fn view(&self) -> (Seq<char>, Seq<char>) {
        (self.name@, self.message@)
    }
}

impl View for Outcome {
    type V = OutcomeView;

    open spec fn view(&self) -> OutcomeView {
        match *self {
            Outcome::Passed => OutcomeView::Passed,
            Outcome::Failed => OutcomeView::Failed,
            Outcome::Error(e) => OutcomeView::Error { name: e@.0, message: e@.1 },
        }
    }
}

impl RuleRuntimeError {
    /// The name of the rule whose body threw.
    pub fn name(&self) -> (r: &str)
        ensures
            r@ == self@.0,
    {
        self.name.as_str()
    }

    /// What the body threw, in words.
    pub fn message(&self) -> (r: &str)
        ensures
            r@ == self@.1,
    {
        self.message.as_str()
    }
}

/// The result of one rule in one evaluation.
#[derive(Debug, PartialEq, Eq, Clone)]
pub struct RuleResult {
    name: String,
    optional: bool,
    outcome: Outcome,
}

/// What a `RuleResult` stands for.
pub struct ResultView {
    /// The name of the rule.
    pub name: Seq<char>,
    /// Whether the rule is optional.
    pub optional: bool,
    /// The outcome of the rule.
    pub outcome: OutcomeView,
}

impl View for RuleResult {
    type V = ResultView;

    closed spec fn view(&self) -> ResultView {
        ResultView { name: self.name@, optional: self.optional, outcome: self.outcome@ }
    }
}

/// What a sequence of results stands for.
pub open spec fn result_views(results: Seq<RuleResult>) -> Seq<ResultView> {
    results.map_values(|r: RuleResult| r@)
}

/// What the call of a rule's body in the script engine gave.
#[derive(Debug, PartialEq, Eq, Clone)]
pub enum Called {
    /// The body returned; the flag says whether the returned value counts
    /// as true in a script.
    Returned(bool),
    /// The body threw, or passed a limit of the sandbox; the text says
    /// which.
    Threw(String),
    /// The engine gave up on the body: the call did not come back in
    /// order, or was not made.
    GaveUp,
}

/// What a `Called` stands for.
pub enum CalledView {
    /// The body returned.
    Returned(bool),
    /// The body threw.
    Threw(Seq<char>),
    /// The engine gave up on the body.
    GaveUp,
}

impl View for Called {
    type V = CalledView;

    open spec fn view(&self) -> CalledView {
        match *self {
            Called::Returned(flag) => CalledView::Returned(flag),
            Called::Threw(message) => CalledView::Threw(message@),
            Called::GaveUp => CalledView::GaveUp,
        }
    }
}

/// What a sequence of calls gave.
pub open spec fn called_views(gave: Seq<Called>) -> Seq<CalledView> {
    gave.map_values(|c: Called| c@)
}

/// The result of the rule `name`, optional or not, given what the call of
/// its body gave: passed or failed by the returned value; the rule's own
/// error with what was thrown; the rule's own error with `gave_up_text()`
/// where the engine gave up.
pub open spec fn judged(name: Seq<char>, optional: bool, gave: CalledView) -> ResultView {
    ResultView {
        name,
        optional,
        outcome: match gave {
            CalledView::Returned(true) => OutcomeView::Passed,
            CalledView::Returned(false) => OutcomeView::Failed,
            CalledView::Threw(message) => OutcomeView::Error { name, message },
            CalledView::GaveUp => OutcomeView::Error { name, message: gave_up_text() },
        },
    }
}

/// What the call of the body of the rule at position `i` gave: the entry of
/// `gave` at that position, and that the engine gave up where `gave` has
/// none.
pub open spec fn gave_at(gave: Seq<CalledView>, i: int) -> CalledView {
    if 0 <= i < gave.len() {
        gave[i]
    } else {
        CalledView::GaveUp
    }
}

/// The results of `rules`, in their order, given what the calls of their
/// bodies gave: one for each rule.
pub open spec fn reports(rules: Seq<RuleView>, gave: Seq<CalledView>) -> Seq<ResultView> {
    Seq::new(rules.len(), |i: int| judged(rules[i].name, rules[i].optional, gave_at(gave, i)))
}

impl RuleResult {
    /// The result of the rule `name`, optional or not, given what the call
    /// of its body gave: see `judged`.
    pub fn judge(name: &str, optional: bool, gave: Called) -> (r: RuleResult)
        ensures
            r@ == judged(name@, optional, gave@),
    {
        let outcome = match gave {
            Called::Returned(true) => Outcome::Passed,
            Called::Returned(false) => Outcome::Failed,
            Called::Threw(message) => Outcome::Error(
                RuleRuntimeError { name: name.to_owned(), message },
            ),
            Called::GaveUp => Outcome::Error(
                RuleRuntimeError {
                    name: name.to_owned(),
                    message: "the script engine gave up".to_owned(),
                },
            ),
        };
        RuleResult { name: name.to_owned(), optional, outcome }
    }

    /// The name of the rule.
    pub fn name(&self) -> (r: &str)
        ensures
            r@ == self@.name,
    {
        self.name.as_str()
    }

    /// Whether the rule is optional.
    pub fn is_optional(&self) -> (r: bool)
        ensures
            r == self@.optional,
    {
        self.optional
    }

    /// The outcome of the rule.
    pub fn outcome(&self) -> (r: &Outcome)
        ensures
            r@ == self@.outcome,
    {
        &self.outcome
    }
}

/// The results keep the rules' order, names and optional marks, however
/// many rules are optional and whatever the bodies gave. A rule whose body
/// threw, or on whose body the engine gave up, has its own error as its
/// outcome, while the outcome of every other rule is what its own body
/// gave. Without rules there is no result.
pub proof fn law_reports(rules: Seq<RuleView>, gave: Seq<CalledView>)
    ensures
        reports(rules, gave).len() == rules.len(),
        rules.len() == 0 ==> reports(rules, gave) == Seq::<ResultView>::empty(),
        forall|i: int|
            0 <= i < rules.len() ==> (#[trigger] reports(rules, gave)[i]).name == rules[i].name
                && reports(rules, gave)[i].optional == rules[i].optional,
        forall|i: int|
            0 <= i < rules.len() ==> ((#[trigger] reports(rules, gave)[i]).outcome is Error
                <==> !(gave_at(gave, i) is Returned)),
        forall|i: int|
            0 <= i < rules.len() ==> (#[trigger] reports(rules, gave)[i]).outcome == judged(
                rules[i].name,
                rules[i].optional,
                gave_at(gave, i),
            ).outcome,
{
    assert(rules.len() == 0 ==> reports(rules, gave) =~= Seq::<ResultView>::empty());
}

/// A host of rules: a sandbox of the script engine and the rules that a
/// rule source registered in it, in the order of their registration. The
/// two are made together by a load and dropped together.
pub struct JsRules {
    ctx: Context,
    rules: Vec<Rule>,
}

/// What a `JsRules` stands for.
pub struct HostView {
    /// The sandbox of the script engine in which the rules were registered
    /// and in which their bodies are called. It is the engine's own state:
    /// the proofs know no more of it than which one it is.
    pub sandbox: Context,
    /// The rules, in the order of their registration.
    pub rules: Seq<RuleView>,
}

impl View for JsRules {
    type V = HostView;

    closed spec fn view(&self) -> HostView {
        HostView { sandbox: self.ctx, rules: rule_views(self.rules@) }
    }
}

/// The words for what a script threw where even taking it as text throws.
pub open spec fn unnamed_text() -> Seq<char> {
    "uncaught exception"@
}

/// What a script threw, in words, given what taking the thrown value as
/// text gave: that text, or `unnamed_text()` where taking it as text threw
/// as well.
pub fn thrown_text(text: Option<String>) -> (r: String)
    ensures
        r@ == match text {
            Some(t) => t@,
            None => unnamed_text(),
        },
{
    match text {
        Some(t) => t,
        None => "uncaught exception".to_owned(),
    }
}

/// How many rounds of its loops one function call of a script may go
/// through in a sandbox of the host. A rule that takes longer is ended by
/// the engine, and the passed limit is handed back as what it threw.
pub const LOOP_LIMIT: u64 = 1_000_000;

/// The number as a rule body is shown it: itself, or the largest number of
/// its width where it is larger.
pub open spec fn narrow(number: nat) -> u64 {
    if number <= u64::MAX {
        number as u64
    } else {
        u64::MAX
    }
}

/// The number as a rule body is shown it: itself, or the largest number of
/// its width where it is larger.
fn narrowed(number: u128) -> (r: u64)
    ensures
        r == narrow(number as nat),
{
    if number <= u64::MAX as u128 {
        number as u64
    } else {
        u64::MAX
    }
}

/// What a rule body is shown of one selection entry: a copy in plain
/// values.
#[derive(Debug, PartialEq, Eq, Clone)]
pub struct CourseFacts {
    /// The identifier of the course.
    pub id: String,
    /// The name of the course.
    pub name: String,
    /// The tags of the course, each once.
    pub tags: Vec<String>,
    /// For each semester of the program, whether the course is selected.
    pub semesters: Vec<bool>,
    /// The number of selected semesters.
    pub selected: u64,
    /// The label of the exam role the course holds, if any.
    pub exam: Option<String>,
}

/// What a rule body is shown of one field: a copy in plain values, with
/// the field's two sums.
#[derive(Debug, PartialEq, Eq, Clone)]
pub struct FieldFacts {
    /// The name of the field.
    pub name: String,
    /// How many selected semesters of the field count at most, if capped.
    pub max_usable: Option<u32>,
    /// The selected semesters of the field's courses together.
    pub selected: u64,
    /// Those of them that count toward graduation.
    pub usable: u64,
    /// The copies of the field's courses, in their order.
    pub courses: Vec<CourseFacts>,
}

/// What a rule body is shown of a selection: a copy in plain values.
#[derive(Debug, PartialEq, Eq, Clone)]
pub struct Snapshot {
    /// The name of the school.
    pub school: String,
    /// The version of the catalog.
    pub version: String,
    /// The number of semesters of the program.
    pub semesters: u64,
    /// The copies of the fields, in their order.
    pub fields: Vec<FieldFacts>,
    /// The copies of all courses, field by field.
    pub courses: Vec<CourseFacts>,
}

/// Whether `label` is the label of the exam role `exam`, or both are
/// absent.
pub open spec fn labels_exam(label: Option<String>, exam: Option<Exam>) -> bool {
    match (label, exam) {
        (Some(text), Some(slot)) => text@ == slot.spec_label(),
        (None, None) => true,
        _ => false,
    }
}

/// Whether `facts` is the copy of `entry`: its identifier and name, each of
/// its tags once, its flag for each semester, the number of its selected
/// semesters, and the label of the exam role it holds.
pub open spec fn copies_course(facts: CourseFacts, entry: InstanceView) -> bool {
    &&& facts.id@ == entry.course.id
    &&& facts.name@ == entry.course.name
    &&& texts(facts.tags@).to_set() == entry.course.tags
    &&& texts(facts.tags@).no_duplicates()
    &&& facts.semesters@ == entry.semesters
    &&& facts.selected == entry.selected()
    &&& labels_exam(facts.exam, entry.exam)
}

/// Whether `list` holds the copies of `entries`, one for each, in their
/// order.
pub open spec fn copies_courses(list: Seq<CourseFacts>, entries: Seq<InstanceView>) -> bool {
    &&& list.len() == entries.len()
    &&& forall|i: int| 0 <= i < list.len() ==> copies_course(#[trigger] list[i], entries[i])
}

/// Whether `facts` is the copy of `field`: its name and cap, the selected
/// semesters of its courses together, those of them that count, and the
/// copies of its courses.
pub open spec fn copies_field(facts: FieldFacts, field: FieldView<InstanceView>) -> bool {
    &&& facts.name@ == field.name
    &&& facts.max_usable == field.max_usable
    &&& facts.selected == narrow(field.selected())
    &&& facts.usable == narrow(field.usable())
    &&& copies_courses(facts.courses@, field.courses)
}

/// Whether `list` holds the copies of `fields`, one for each, in their
/// order.
pub open spec fn copies_fields(
    list: Seq<FieldFacts>,
    fields: Seq<FieldView<InstanceView>>,
) -> bool {
    &&& list.len() == fields.len()
    &&& forall|i: int| 0 <= i < list.len() ==> copies_field(#[trigger] list[i], fields[i])
}

/// Whether `snapshot` is the copy of `model`: the school, the version, the
/// number of semesters, the copies of the fields, and the copies of all
/// courses in the catalog's order.
pub open spec fn copies(snapshot: Snapshot, model: StructureView<InstanceView>) -> bool {
    &&& snapshot.school@ == model.school
    &&& snapshot.version@ == model.version
    &&& snapshot.semesters == model.num_semesters
    &&& copies_fields(snapshot.fields@, model.fields)
    &&& copies_courses(snapshot.courses@, model.courses())
}

/// Copies of two lists of entries, one after the other, are the copies of
/// the entries of both.
pub proof fn lemma_copies_joined(
    a: Seq<CourseFacts>,
    x: Seq<InstanceView>,
    b: Seq<CourseFacts>,
    y: Seq<InstanceView>,
)
    requires
        copies_courses(a, x),
        copies_courses(b, y),
    ensures
        copies_courses(a + b, x + y),
{
    let joined = a + b;
    assert forall|i: int| 0 <= i < joined.len() implies copies_course(
        #[trigger] joined[i],
        (x + y)[i],
    ) by {
        if i < a.len() {
            assert(copies_course(a[i], x[i]));
        } else {
            assert(copies_course(b[i - a.len()], y[i - a.len()]));
        }
    }
}

/// A copy of a list of texts.
fn copied_texts(list: &Vec<String>) -> (r: Vec<String>)
    ensures
        texts(r@) == texts(list@),
{
    let mut copy: Vec<String> = Vec::new();
    let mut i: usize = 0;
    while i < list.len()
        invariant
            i <= list.len(),
            texts(copy@) == texts(list@).take(i as int),
        decreases list.len() - i,
    {
        let ghost before = copy@;
        let text = list[i].clone();
        assert(text@ == texts(list@)[i as int]);
        copy.push(text);
        assert(texts(copy@) =~= texts(before).push(text@));
        assert(texts(list@).take(i + 1) =~= texts(list@).take(i as int).push(text@));
        i += 1;
    }
    assert(texts(list@).take(i as int) =~= texts(list@));
    copy
}

/// A copy of a list of flags.
fn copied_flags(list: &Vec<bool>) -> (r: Vec<bool>)
    ensures
        r@ == list@,
{
    let mut copy: Vec<bool> = Vec::new();
    let mut i: usize = 0;
    while i < list.len()
        invariant
            i <= list.len(),
            copy@ == list@.take(i as int),
        decreases list.len() - i,
    {
        copy.push(list[i]);
        assert(copy@ =~= list@.take(i + 1));
        i += 1;
    }
    assert(list@.take(i as int) =~= list@);
    copy
}

/// What a rule body is shown of a selection entry: its identifier and name,
/// each of its tags once, its flag for each semester, the number of its
/// selected semesters, and the label of the exam role it holds, if any.
pub fn project_course(course: &CourseInstance) -> (r: CourseFacts)
    ensures
        copies_course(r, course@),
{
    let exam = match course.exam() {
        Some(slot) => Some(slot.label().to_owned()),
        None => None,
    };
    CourseFacts {
        id: course.course().id().to_owned(),
        name: course.course().name().to_owned(),
        tags: copied_texts(course.course().tags()),
        semesters: copied_flags(course.semesters()),
        selected: course.selected_semester_count() as u64,
        exam,
    }
}

/// What a rule body is shown of the courses of a field: the copy of each,
/// in the field's order.
pub fn project_courses(field: &Field<CourseInstance>) -> (r: Vec<CourseFacts>)
    ensures
        copies_courses(r@, field@.courses),
{
    let mut courses: Vec<CourseFacts> = Vec::new();
    let mut i: usize = 0;
    while i < field.len()
        invariant
            i <= field@.courses.len(),
            copies_courses(courses@, field@.courses.take(i as int)),
        decreases field@.courses.len() - i,
    {
        let ghost before = courses@;
        match field.course(i) {
            Some(course) => {
                let facts = project_course(course);
                courses.push(facts);
                proof {
                    let one = field@.courses.subrange(i as int, i + 1);
                    assert(copies_courses(seq![facts], one));
                    lemma_copies_joined(before, field@.courses.take(i as int), seq![facts], one);
                    assert(courses@ =~= before + seq![facts]);
                    assert(field@.courses.take(i + 1) =~= field@.courses.take(i as int) + one);
                }
            },
            None => {},
        }
        i += 1;
    }
    assert(field@.courses.take(i as int) =~= field@.courses);
    courses
}

/// What a rule body is shown of a field: its name and cap, the selected
/// semesters of its courses together, those of them that count toward
/// graduation, and the copies of its courses.
pub fn project_field(field: &Field<CourseInstance>) -> (r: FieldFacts)
    ensures
        copies_field(r, field@),
{
    FieldFacts {
        name: field.name().to_owned(),
        max_usable: field.max_usable(),
        selected: narrowed(field_selected_semesters(field)),
        usable: narrowed(field_usable_semesters(field)),
        courses: project_courses(field),
    }
}

/// What a rule body is shown of a selection: the school, the version, the
/// number of semesters, the copy of each field in the catalog's order, and
/// the copies of all courses, field by field.
pub fn project(model: &Structure<CourseInstance>) -> (r: Snapshot)
    ensures
        copies(r, model@),
{
    let mut fields: Vec<FieldFacts> = Vec::new();
    let mut all: Vec<CourseFacts> = Vec::new();
    let mut i: usize = 0;
    while i < model.num_fields()
        invariant
            i <= model@.fields.len(),
            copies_fields(fields@, model@.fields.take(i as int)),
            copies_courses(all@, flat(model@.fields.take(i as int))),
        decreases model@.fields.len() - i,
    {
        let ghost done = fields@;
        let ghost listed = all@;
        match model.field(i) {
            Some(field) => {
                let facts = project_field(field);
                fields.push(facts);
                let mut more = project_courses(field);
                let ghost added = more@;
                all.append(&mut more);
                proof {
                    let head = model@.fields.take(i as int);
                    let lists = head.map_values(|f: FieldView<InstanceView>| f.courses);
                    assert(model@.fields.take(i + 1) =~= head.push(field@));
                    assert(model@.fields.take(i + 1).map_values(
                        |f: FieldView<InstanceView>| f.courses,
                    ) =~= lists.push(field@.courses));
                    lists.lemma_flatten_push(field@.courses);
                    lemma_copies_joined(listed, flat(head), added, field@.courses);
                    assert(all@ =~= listed + added);
                    assert forall|k: int| 0 <= k < fields@.len() implies copies_field(
                        #[trigger] fields@[k],
                        model@.fields.take(i + 1)[k],
                    ) by {
                        if k < i {
                            assert(copies_field(done[k], head[k]));
                        }
                    }
                }
            },
            None => {},
        }
        i += 1;
    }
    assert(model@.fields.take(i as int) =~= model@.fields);
    Snapshot {
        school: model.school().to_owned(),
        version: model.version().to_owned(),
        semesters: model.num_semesters() as u64,
        fields,
        courses: all,
    }
}

impl JsRules {
    /// The host after the run of a rule source in the sandbox `ctx`, given
    /// how the run ended (`run`), the registrations that it made
    /// (`entries`) and the first defect of its registration calls, if one
    /// was malformed (`defect`).
    ///
    /// A defect fails the load, whether or not the source went on after
    /// it; otherwise a run that threw fails it with what was thrown, and a
    /// run on which the engine gave up with `gave_up_text()`. A load that
    /// fails keeps no rule and drops the sandbox. Otherwise the host has
    /// the sandbox and exactly the registered rules, in their order.
    pub fn loaded(
        ctx: Context,
        run: Ran,
        entries: Vec<(String, JsValue, bool)>,
        defect: Option<RegistrationDefect>,
    ) -> (r: Result<JsRules, RuleLoadError>)
        ensures
            ends_as(r, ctx, run@, entries@, defect),
    {
        match defect {
            Some(defect) => {
                return Err(RuleLoadError::Registration(defect));
            },
            None => {},
        }
        match run {
            Ran::Threw(message) => Err(RuleLoadError::Script { message }),
            Ran::GaveUp => Err(
                RuleLoadError::Script { message: "the script engine gave up".to_owned() },
            ),
            Ran::Ended => {
                let mut rules: Vec<Rule> = Vec::new();
                let ghost all = entries@;
                for entry in it: entries.into_iter()
                    invariant
                        it.seq() == all,
                        rule_views(rules@) == registered(all.take(it.index() as int)),
                {
                    let ghost before = rule_views(rules@);
                    let ghost done = it.index() as int;
                    let (name, body, optional) = entry;
                    let rule = Rule { name, optional, body };
                    rules.push(rule);
                    assert(rule_views(rules@) =~= before.push(rule@));
                    assert(all.take(done + 1) =~= all.take(done).push(all[done]));
                    assert(registered(all.take(done + 1)) =~= before.push(rule@));
                }
                assert(all.take(all.len() as int) =~= all);
                Ok(JsRules { ctx, rules })
            },
        }
    }

    /// Puts what a load gave in the place of the host: the loaded host,
    /// with its sandbox and its rules, where the load succeeded; where it
    /// failed, the sandbox `fresh` and no rule at all, and the load's
    /// error is handed on. Neither the sandbox nor a rule of the host as it
    /// was is kept either way.
    pub fn install(
        &mut self,
        loaded: Result<JsRules, RuleLoadError>,
        fresh: Context,
    ) -> (r: Result<(), RuleLoadError>)
        ensures
            match loaded {
                Ok(host) => r == Ok::<(), RuleLoadError>(()) && final(self)@ == host@,
                Err(e) => r == Err::<(), RuleLoadError>(e) && final(self)@ == (HostView {
                    sandbox: fresh,
                    rules: Seq::<RuleView>::empty(),
                }),
            },
    {
        match loaded {
            Ok(host) => {
                *self = host;
                Ok(())
            },
            Err(e) => {
                self.ctx = fresh;
                self.rules = Vec::new();
                assert(self@.rules =~= Seq::<RuleView>::empty());
                Err(e)
            },
        }
    }

    /// The number of rules.
    pub fn len(&self) -> (r: usize)
        ensures
            r == self@.rules.len(),
    {
        self.rules.len()
    }

    /// The rule at position `i`, if there are that many.
    pub fn rule(&self, i: usize) -> (r: Option<&Rule>)
        ensures
            match r {
                Some(rule) => i < self@.rules.len() && rule@ == self@.rules[i as int],
                None => i >= self@.rules.len(),
            },
    {
        if i < self.rules.len() {
            Some(&self.rules[i])
        } else {
            None
        }
    }

    /// The sandbox of the host, for the calls of the rules' bodies. What a
    /// call does to the sandbox is the engine's; the rules stay as they
    /// are.
    pub fn sandbox(&mut self) -> (r: &mut Context)
        ensures
            *r == old(self)@.sandbox,
            final(self)@ == (HostView { sandbox: *final(r), rules: old(self)@.rules }),
    {
        &mut self.ctx
    }

    /// The results of one evaluation, given what the calls of the rules'
    /// bodies gave: `gave` holds, for each rule in the order of
    /// registration, what the call of its body with the copy of the
    /// selection gave.
    ///
    /// There is one result for each rule, in the order of registration. A
    /// body that returned passes or fails its rule by whether the returned
    /// value counts as true. A body that threw, or that took too long,
    /// gives its rule the outcome `Error`, with the rule's name and what
    /// was thrown; so does a body on which the engine gave up, or for which
    /// `gave` has no entry. The results of the other rules are not touched
    /// by it. Nothing is kept from one evaluation to the next, and the
    /// host is not changed.
    pub fn evaluate(&self, gave: Vec<Called>) -> (r: Vec<RuleResult>)
        ensures
            result_views(r@) == reports(self@.rules, called_views(gave@)),
            r@.len() == self@.rules.len(),
            self@.rules.len() == 0 ==> r@ == Seq::<RuleResult>::empty(),
            forall|i: int|
                0 <= i < r@.len() ==> (#[trigger] r@[i])@.name == self@.rules[i].name
                    && r@[i]@.optional == self@.rules[i].optional,
    {
        let mut results: Vec<RuleResult> = Vec::new();
        let mut gave = gave;
        let ghost all = called_views(gave@);
        let mut i: usize = 0;
        while i < self.rules.len()
            invariant
                i <= self.rules.len(),
                results@.len() == i,
                gave@.len() == all.len(),
                forall|j: int| i <= j < gave@.len() ==> (#[trigger] gave@[j])@ == all[j],
                forall|j: int|
                    0 <= j < i ==> (#[trigger] results@[j])@ == judged(
                        self@.rules[j].name,
                        self@.rules[j].optional,
                        gave_at(all, j),
                    ),
            decreases self.rules.len() - i,
        {
            let one: Called = if i < gave.len() {
                let mut taken = Called::GaveUp;
                std::mem::swap(&mut gave[i], &mut taken);
                taken
            } else {
                Called::GaveUp
            };
            let rule = &self.rules[i];
            results.push(RuleResult::judge(rule.name.as_str(), rule.optional, one));
            i += 1;
        }
        assert(result_views(results@) =~= reports(self@.rules, all));
        results
    }
}

} // verus!
