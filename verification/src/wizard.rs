//! The question sequences that collect a catalog or tool to add, or a catalog
//! to initialize. Asking is the caller's part: each step says what to ask next,
//! or the outcome, from the answer to the previous question.
use vstd::prelude::*;

use crate::git::views;
use crate::interaction::{LayerView, OperationError};
use crate::interactive::{CatalogAddInput, CatalogInitializeInput, ToolAddInput};
use crate::paths::{spec_name_message, spec_valid_name, validate_name};
use crate::text::{cat2, cat3, cat4, cat5, str_eq};

verus! {

/// A question for the person at the terminal.
#[derive(Debug, Clone, PartialEq, Eq)]
pub enum Question {
    Input { label: String },
    Confirm { label: String, default: bool },
    Select { label: String, choices: Vec<String> },
    Message(String),
}

/// The answer to a question; `None` means it was cancelled.
#[derive(Debug, Clone, PartialEq, Eq)]
pub enum Reply {
    Text(Option<String>),
    Decision(Option<bool>),
    Choice(Option<String>),
    Shown,
}

/// What a sequence collected.
#[derive(Debug, PartialEq, Eq)]
pub enum WizardOutput {
    CatalogAdd(CatalogAddInput),
    CatalogInitialize(CatalogInitializeInput),
    ToolAdd(ToolAddInput),
}

/// The next question, or the outcome: the collected input, none when the
/// person cancelled, or an error.
#[derive(Debug)]
pub enum Step {
    Ask(Question),
    Finish(Result<Option<WizardOutput>, OperationError>),
}

/// Which sequence runs.
#[derive(Debug, Clone, Copy, PartialEq, Eq, Structural)]
pub enum WizardKind {
    CatalogAdd,
    CatalogInitialize,
    ToolAdd,
}

/// The question a sequence waits on.
#[derive(Debug, Clone, Copy, PartialEq, Eq, Structural)]
pub enum WizardStage {
    Name,
    NameRetry,
    Url,
    UrlRetry,
    Writable,
    Revision,
    Catalog,
    Summary,
    Proceed,
    Notice,
    Commit,
    Push,
    Done,
}

/// A question sequence and what it collected so far.
#[derive(Debug, Clone)]
pub struct Wizard {
    pub kind: WizardKind,
    pub stage: WizardStage,
    pub name: String,
    pub url: String,
    pub revision: Option<String>,
    pub catalog: String,
    pub writable: bool,
    pub commit: bool,
    pub push: bool,
    pub supplied_url: Option<String>,
    pub supplied_revision: Option<String>,
    pub supplied_catalog: Option<String>,
    pub writable_default: bool,
    pub catalogs: Vec<String>,
    pub commit_default: bool,
    pub push_default: bool,
}

pub struct WizardView {
    pub kind: WizardKind,
    pub stage: WizardStage,
    pub name: Seq<char>,
    pub url: Seq<char>,
    pub revision: Option<Seq<char>>,
    pub catalog: Seq<char>,
    pub writable: bool,
    pub commit: bool,
    pub push: bool,
    pub supplied_url: Option<Seq<char>>,
    pub supplied_revision: Option<Seq<char>>,
    pub supplied_catalog: Option<Seq<char>>,
    pub writable_default: bool,
    pub catalogs: Seq<Seq<char>>,
    pub commit_default: bool,
    pub push_default: bool,
}

pub open spec fn ov(o: Option<String>) -> Option<Seq<char>> {
    crate::cli::scan::opt_view(o)
}

impl View for Wizard {
    type V = WizardView;

    open spec fn view(&self) -> WizardView {
        WizardView {
            kind: self.kind,
            stage: self.stage,
            name: self.name@,
            url: self.url@,
            revision: ov(self.revision),
            catalog: self.catalog@,
            writable: self.writable,
            commit: self.commit,
            push: self.push,
            supplied_url: ov(self.supplied_url),
            supplied_revision: ov(self.supplied_revision),
            supplied_catalog: ov(self.supplied_catalog),
            writable_default: self.writable_default,
            catalogs: views(self.catalogs@),
            commit_default: self.commit_default,
            push_default: self.push_default,
        }
    }
}

pub enum QuestionView {
    Input { label: Seq<char> },
    Confirm { label: Seq<char>, default: bool },
    Select { label: Seq<char>, choices: Seq<Seq<char>> },
    Message(Seq<char>),
}

impl View for Question {
    type V = QuestionView;

    open spec fn view(&self) -> QuestionView {
        match self {
            Question::Input { label } => QuestionView::Input { label: label@ },
            Question::Confirm { label, default } => QuestionView::Confirm { label: label@, default: *default },
            Question::Select { label, choices } => QuestionView::Select { label: label@, choices: views(choices@) },
            Question::Message(m) => QuestionView::Message(m@),
        }
    }
}

pub enum ReplyView {
    Text(Option<Seq<char>>),
    Decision(Option<bool>),
    Choice(Option<Seq<char>>),
    Shown,
}

impl View for Reply {
    type V = ReplyView;

    open spec fn view(&self) -> ReplyView {
        match self {
            Reply::Text(t) => ReplyView::Text(ov(*t)),
            Reply::Decision(d) => ReplyView::Decision(*d),
            Reply::Choice(c) => ReplyView::Choice(ov(*c)),
            Reply::Shown => ReplyView::Shown,
        }
    }
}

/// A collected input as plain values.
pub enum OutputView {
    CatalogAdd { name: Seq<char>, url: Seq<char>, writable: bool },
    CatalogInitialize { name: Seq<char>, url: Seq<char>, writable: bool, commit: bool, push: bool },
    ToolAdd {
        name: Seq<char>,
        url: Seq<char>,
        revision: Option<Seq<char>>,
        catalog: Seq<char>,
        commit: bool,
        push: bool,
    },
}

impl View for WizardOutput {
    type V = OutputView;

    open spec fn view(&self) -> OutputView {
        match self {
            WizardOutput::CatalogAdd(i) => OutputView::CatalogAdd { name: i.name@, url: i.url@, writable: i.writable },
            WizardOutput::CatalogInitialize(i) => OutputView::CatalogInitialize {
                name: i.catalog.name@,
                url: i.catalog.url@,
                writable: i.catalog.writable,
                commit: i.commit,
                push: i.push,
            },
            WizardOutput::ToolAdd(i) => OutputView::ToolAdd {
                name: i.name@,
                url: i.url@,
                revision: ov(i.revision),
                catalog: i.catalog@,
                commit: i.commit,
                push: i.push,
            },
        }
    }
}

pub enum StepView {
    Ask(QuestionView),
    Finish(Result<Option<OutputView>, Seq<LayerView>>),
}

impl View for Step {
    type V = StepView;

    open spec fn view(&self) -> StepView {
        match self {
            Step::Ask(q) => StepView::Ask(q@),
            Step::Finish(r) => StepView::Finish(
                match r {
                    Ok(Some(o)) => Ok(Some(o@)),
                    Ok(None) => Ok(None),
                    Err(e) => Err(e@),
                },
            ),
        }
    }
}

pub open spec fn fail(text: Seq<char>) -> StepView {
    StepView::Finish(Err(seq![LayerView::Message(text)]))
}

pub open spec fn cancelled() -> StepView {
    StepView::Finish(Ok(None))
}

pub open spec fn name_label(kind: WizardKind) -> Seq<char> {
    if kind == WizardKind::ToolAdd { "Tool name:"@ } else { "Catalog name:"@ }
}

pub open spec fn url_label(kind: WizardKind) -> Seq<char> {
    if kind == WizardKind::CatalogInitialize {
        "Existing empty Git repository URL:"@
    } else {
        "Git repository URL:"@
    }
}

pub open spec fn yes_no(b: bool) -> Seq<char> {
    if b { "yes"@ } else { "no"@ }
}

/// The summary shown before the person confirms.
pub open spec fn summary(w: WizardView) -> Seq<char> {
    match w.kind {
        WizardKind::CatalogAdd => "\nAdd this catalog?\n\n  Name:      "@ + w.name + "\n  URL:       "@ + w.url
            + "\n  Writable:  "@ + yes_no(w.writable) + "\n"@,
        WizardKind::CatalogInitialize => "\nInitialize this catalog?\n\n  Name:      "@ + w.name
            + "\n  URL:       "@ + w.url + "\n  Writable:  yes\n"@,
        WizardKind::ToolAdd => "\nAdd this tool?\n\n  Name:      "@ + w.name + "\n  URL:       "@ + w.url
            + "\n  Revision:  "@ + (match w.revision {
            Some(r) => r,
            None => "remote default"@,
        }) + "\n  Catalog:   "@ + w.catalog + "\n"@,
    }
}

/// Ask for the summary to be shown.
pub open spec fn enter_summary(w: WizardView) -> (WizardView, StepView) {
    let n = WizardView { stage: WizardStage::Summary, ..w };
    (n, StepView::Ask(QuestionView::Message(summary(n))))
}

/// The collected input when nothing more is asked.
pub open spec fn output(w: WizardView) -> OutputView {
    match w.kind {
        WizardKind::CatalogAdd => OutputView::CatalogAdd { name: w.name, url: w.url, writable: w.writable },
        WizardKind::CatalogInitialize => OutputView::CatalogInitialize {
            name: w.name,
            url: w.url,
            writable: w.writable,
            commit: w.commit,
            push: w.push,
        },
        WizardKind::ToolAdd => OutputView::ToolAdd {
            name: w.name,
            url: w.url,
            revision: w.revision,
            catalog: w.catalog,
            commit: w.commit,
            push: w.push,
        },
    }
}

pub open spec fn finish(w: WizardView) -> (WizardView, StepView) {
    let n = WizardView { stage: WizardStage::Done, ..w };
    (n, StepView::Finish(Ok(Some(output(n)))))
}

pub open spec fn stop(w: WizardView, step: StepView) -> (WizardView, StepView) {
    (WizardView { stage: WizardStage::Done, ..w }, step)
}

/// After the tool's revision: the catalog, which must be writable.
pub open spec fn enter_catalog(w: WizardView) -> (WizardView, StepView) {
    if w.catalogs.len() == 0 {
        stop(w, fail("No writable catalogs are configured.\nRun 'loadbot catalog add' to add one."@))
    } else {
        match w.supplied_catalog {
            Some(c) => if w.catalogs.contains(c) {
                enter_summary(WizardView { catalog: c, ..w })
            } else {
                stop(w, fail("catalog '"@ + c + "' is not configured as writable"@))
            },
            None => (
                WizardView { stage: WizardStage::Catalog, ..w },
                StepView::Ask(QuestionView::Select { label: "Select a writable catalog:\n"@, choices: w.catalogs }),
            ),
        }
    }
}

/// After the URL: writability for catalogs, the revision for tools.
pub open spec fn enter_after_url(w: WizardView) -> (WizardView, StepView) {
    match w.kind {
        WizardKind::CatalogAdd => if w.writable_default {
            enter_summary(WizardView { writable: true, ..w })
        } else {
            (
                WizardView { stage: WizardStage::Writable, ..w },
                StepView::Ask(QuestionView::Confirm { label: "Writable?"@, default: false }),
            )
        },
        WizardKind::CatalogInitialize => (
            WizardView { stage: WizardStage::Writable, ..w },
            StepView::Ask(QuestionView::Confirm { label: "Writable?"@, default: true }),
        ),
        WizardKind::ToolAdd => match w.supplied_revision {
            Some(r) => enter_catalog(WizardView { revision: Some(r), ..w }),
            None => (
                WizardView { stage: WizardStage::Revision, ..w },
                StepView::Ask(QuestionView::Input { label: "Revision [remote default]:"@ }),
            ),
        },
    }
}

/// The URL: a supplied one must not be empty; otherwise it is asked for.
pub open spec fn enter_url(w: WizardView) -> (WizardView, StepView) {
    match w.supplied_url {
        Some(u) => if u.len() == 0 {
            stop(w, fail("Git URL must not be empty"@))
        } else {
            enter_after_url(WizardView { url: u, ..w })
        },
        None => (
            WizardView { stage: WizardStage::Url, ..w },
            StepView::Ask(QuestionView::Input { label: url_label(w.kind) }),
        ),
    }
}

/// After the person confirmed the summary.
pub open spec fn enter_after_proceed(w: WizardView) -> (WizardView, StepView) {
    match w.kind {
        WizardKind::CatalogAdd => finish(w),
        WizardKind::CatalogInitialize => (
            WizardView { stage: WizardStage::Notice, ..w },
            StepView::Ask(
                QuestionView::Message(
                    "Loadbot will only initialize an existing empty Git remote. It will create catalog.toml, but it will not commit or push unless you confirm each action."@,
                ),
            ),
        ),
        WizardKind::ToolAdd => if w.commit_default {
            enter_push(WizardView { commit: true, ..w })
        } else {
            (
                WizardView { stage: WizardStage::Commit, ..w },
                StepView::Ask(QuestionView::Confirm { label: "Commit the catalog change?"@, default: false }),
            )
        },
    }
}

/// After the commit decision: the push, only for a commit.
pub open spec fn enter_push(w: WizardView) -> (WizardView, StepView) {
    if !w.commit {
        finish(WizardView { push: false, ..w })
    } else if w.kind == WizardKind::ToolAdd && w.push_default {
        finish(WizardView { push: true, ..w })
    } else {
        (
            WizardView { stage: WizardStage::Push, ..w },
            StepView::Ask(
                QuestionView::Confirm {
                    label: if w.kind == WizardKind::ToolAdd {
                        "Push the catalog change?"@
                    } else {
                        "Push the initial catalog commit?"@
                    },
                    default: false,
                },
            ),
        )
    }
}

/// The question a stage asks, asked again when the answer does not fit it.
pub open spec fn stage_question(w: WizardView) -> QuestionView {
    match w.stage {
        WizardStage::Name | WizardStage::NameRetry => QuestionView::Input { label: name_label(w.kind) },
        WizardStage::Url | WizardStage::UrlRetry => QuestionView::Input { label: url_label(w.kind) },
        WizardStage::Writable => QuestionView::Confirm {
            label: "Writable?"@,
            default: w.kind == WizardKind::CatalogInitialize,
        },
        WizardStage::Revision => QuestionView::Input { label: "Revision [remote default]:"@ },
        WizardStage::Catalog => QuestionView::Select { label: "Select a writable catalog:\n"@, choices: w.catalogs },
        WizardStage::Summary => QuestionView::Message(summary(w)),
        WizardStage::Proceed => QuestionView::Confirm { label: "Proceed?"@, default: true },
        WizardStage::Notice => QuestionView::Message(
            "Loadbot will only initialize an existing empty Git remote. It will create catalog.toml, but it will not commit or push unless you confirm each action."@,
        ),
        WizardStage::Commit => QuestionView::Confirm {
            label: if w.kind == WizardKind::ToolAdd {
                "Commit the catalog change?"@
            } else {
                "Commit the initial catalog.toml?"@
            },
            default: false,
        },
        WizardStage::Push => QuestionView::Confirm {
            label: if w.kind == WizardKind::ToolAdd {
                "Push the catalog change?"@
            } else {
                "Push the initial catalog commit?"@
            },
            default: false,
        },
        WizardStage::Done => QuestionView::Message(Seq::empty()),
    }
}

/// One answer: the next state and step.
pub open spec fn spec_reply(w: WizardView, r: ReplyView) -> (WizardView, StepView) {
    let again = (w, StepView::Ask(stage_question(w)));
    match (w.stage, r) {
        (WizardStage::Name, ReplyView::Text(None)) => stop(w, cancelled()),
        (WizardStage::Name, ReplyView::Text(Some(n))) => if spec_valid_name(n) {
            enter_url(WizardView { name: n, ..w })
        } else {
            (WizardView { stage: WizardStage::NameRetry, ..w }, StepView::Ask(QuestionView::Message(spec_name_message(n))))
        },
        (WizardStage::NameRetry, ReplyView::Shown) => (
            WizardView { stage: WizardStage::Name, ..w },
            StepView::Ask(QuestionView::Input { label: name_label(w.kind) }),
        ),
        (WizardStage::Url, ReplyView::Text(None)) => stop(w, cancelled()),
        (WizardStage::Url, ReplyView::Text(Some(u))) => if u.len() > 0 {
            enter_after_url(WizardView { url: u, ..w })
        } else {
            (
                WizardView { stage: WizardStage::UrlRetry, ..w },
                StepView::Ask(QuestionView::Message("Git URL must not be empty."@)),
            )
        },
        (WizardStage::UrlRetry, ReplyView::Shown) => (
            WizardView { stage: WizardStage::Url, ..w },
            StepView::Ask(QuestionView::Input { label: url_label(w.kind) }),
        ),
        (WizardStage::Writable, ReplyView::Decision(None)) => stop(w, cancelled()),
        (WizardStage::Writable, ReplyView::Decision(Some(b))) => if w.kind == WizardKind::CatalogInitialize && !b {
            stop(w, fail("a catalog initialized by Loadbot must be writable"@))
        } else {
            enter_summary(WizardView { writable: b, ..w })
        },
        (WizardStage::Revision, ReplyView::Text(None)) => stop(w, cancelled()),
        (WizardStage::Revision, ReplyView::Text(Some(v))) => enter_catalog(
            WizardView { revision: if v.len() > 0 { Some(v) } else { None }, ..w },
        ),
        (WizardStage::Catalog, ReplyView::Choice(None)) => stop(w, cancelled()),
        (WizardStage::Catalog, ReplyView::Choice(Some(c))) => enter_summary(WizardView { catalog: c, ..w }),
        (WizardStage::Summary, ReplyView::Shown) => (
            WizardView { stage: WizardStage::Proceed, ..w },
            StepView::Ask(QuestionView::Confirm { label: "Proceed?"@, default: true }),
        ),
        (WizardStage::Proceed, ReplyView::Decision(d)) => if d == Some(true) {
            enter_after_proceed(w)
        } else {
            stop(w, cancelled())
        },
        (WizardStage::Notice, ReplyView::Shown) => (
            WizardView { stage: WizardStage::Commit, ..w },
            StepView::Ask(QuestionView::Confirm { label: "Commit the initial catalog.toml?"@, default: false }),
        ),
        (WizardStage::Commit, ReplyView::Decision(None)) => stop(w, cancelled()),
        (WizardStage::Commit, ReplyView::Decision(Some(c))) => enter_push(WizardView { commit: c, ..w }),
        (WizardStage::Push, ReplyView::Decision(None)) => stop(w, cancelled()),
        (WizardStage::Push, ReplyView::Decision(Some(p))) => finish(WizardView { push: p, ..w }),
        _ => again,
    }
}


fn message_step(text: String) -> (r: Step)
    ensures
        r@ == StepView::Ask(QuestionView::Message(text@)),
{
    Step::Ask(Question::Message(text))
}

fn fail_step(text: String) -> (r: Step)
    ensures
        r@ == fail(text@),
{
    let e = OperationError::message(text);
    assert(e@ =~= seq![LayerView::Message(e.layers@[0]->Message_0@)]);
    Step::Finish(Err(e))
}

fn name_label_exec(kind: WizardKind) -> (r: &'static str)
    ensures
        r@ == name_label(kind),
{
    if kind == WizardKind::ToolAdd { "Tool name:" } else { "Catalog name:" }
}

fn url_label_exec(kind: WizardKind) -> (r: &'static str)
    ensures
        r@ == url_label(kind),
{
    if kind == WizardKind::CatalogInitialize {
        "Existing empty Git repository URL:"
    } else {
        "Git repository URL:"
    }
}

fn copy_opt(o: &Option<String>) -> (r: Option<String>)
    ensures
        ov(r) == ov(*o),
{
    match o {
        Some(s) => Some(s.clone()),
        None => None,
    }
}

fn copy_all(v: &Vec<String>) -> (r: Vec<String>)
    ensures
        views(r@) == views(v@),
{
    let mut r: Vec<String> = Vec::new();
    let mut i: usize = 0;
    while i < v.len()
        invariant
            i <= v.len(),
            views(r@) == views(v@).subrange(0, i as int),
        decreases v.len() - i,
    {
        proof {
            crate::git::lemma_views_push(r@, v@[i as int]);
        }
        r.push(v[i].clone());
        assert(views(v@).subrange(0, i + 1) =~= views(v@).subrange(0, i as int).push(v@[i as int]@));
        i = i + 1;
    }
    assert(views(v@).subrange(0, v.len() as int) =~= views(v@));
    r
}

impl Wizard {
    fn summary_text(&self) -> (r: String)
        ensures
            r@ == summary(self@),
    {
        match self.kind {
            WizardKind::CatalogAdd => {
                let head = cat4("\nAdd this catalog?\n\n  Name:      ", self.name.as_str(), "\n  URL:       ", self.url.as_str());
                cat4(head.as_str(), "\n  Writable:  ", if self.writable { "yes" } else { "no" }, "\n")
            },
            WizardKind::CatalogInitialize => {
                let head = cat4(
                    "\nInitialize this catalog?\n\n  Name:      ",
                    self.name.as_str(),
                    "\n  URL:       ",
                    self.url.as_str(),
                );
                cat2(head.as_str(), "\n  Writable:  yes\n")
            },
            WizardKind::ToolAdd => {
                let head = cat4("\nAdd this tool?\n\n  Name:      ", self.name.as_str(), "\n  URL:       ", self.url.as_str());
                let revision = match &self.revision {
                    Some(r) => r.clone(),
                    None => "remote default".to_string(),
                };
                let middle = cat3(head.as_str(), "\n  Revision:  ", revision.as_str());
                cat4(middle.as_str(), "\n  Catalog:   ", self.catalog.as_str(), "\n")
            },
        }
    }

    fn enter_summary(self) -> (r: (Wizard, Step))
        ensures
            (r.0@, r.1@) == enter_summary(self@),
    {
        let n = Wizard { stage: WizardStage::Summary, ..self };
        let text = n.summary_text();
        (n, message_step(text))
    }

    fn output(&self) -> (r: WizardOutput)
        ensures
            r@ == output(self@),
    {
        match self.kind {
            WizardKind::CatalogAdd => WizardOutput::CatalogAdd(
                CatalogAddInput { name: self.name.clone(), url: self.url.clone(), writable: self.writable },
            ),
            WizardKind::CatalogInitialize => WizardOutput::CatalogInitialize(
                CatalogInitializeInput {
                    catalog: CatalogAddInput { name: self.name.clone(), url: self.url.clone(), writable: self.writable },
                    commit: self.commit,
                    push: self.push,
                },
            ),
            WizardKind::ToolAdd => WizardOutput::ToolAdd(
                ToolAddInput {
                    name: self.name.clone(),
                    url: self.url.clone(),
                    revision: copy_opt(&self.revision),
                    catalog: self.catalog.clone(),
                    commit: self.commit,
                    push: self.push,
                },
            ),
        }
    }

    fn finish(self) -> (r: (Wizard, Step))
        ensures
            (r.0@, r.1@) == finish(self@),
    {
        let n = Wizard { stage: WizardStage::Done, ..self };
        let out = n.output();
        (n, Step::Finish(Ok(Some(out))))
    }

    fn stop(self, step: Step) -> (r: (Wizard, Step))
        ensures
            (r.0@, r.1@) == stop(self@, step@),
    {
        (Wizard { stage: WizardStage::Done, ..self }, step)
    }

    fn enter_catalog(self) -> (r: (Wizard, Step))
        ensures
            (r.0@, r.1@) == enter_catalog(self@),
    {
        if self.catalogs.len() == 0 {
            assert(views(self.catalogs@).len() == 0);
            return self.stop(fail_step("No writable catalogs are configured.\nRun 'loadbot catalog add' to add one.".to_string()));
        }
        match copy_opt(&self.supplied_catalog) {
            Some(c) => {
                let mut i: usize = 0;
                let mut found = false;
                while i < self.catalogs.len()
                    invariant
                        i <= self.catalogs.len(),
                        !found ==> forall|j: int| 0 <= j < i ==> views(self.catalogs@)[j] != c@,
                        found ==> views(self.catalogs@).contains(c@),
                    decreases self.catalogs.len() - i,
                {
                    if !found && str_eq(self.catalogs[i].as_str(), c.as_str()) {
                        found = true;
                        assert(views(self.catalogs@)[i as int] == c@);
                    }
                    i = i + 1;
                }
                if found {
                    Wizard { catalog: c, ..self }.enter_summary()
                } else {
                    assert(!views(self.catalogs@).contains(c@));
                    let text = cat3("catalog '", c.as_str(), "' is not configured as writable");
                    self.stop(fail_step(text))
                }
            },
            None => {
                let choices = copy_all(&self.catalogs);
                let n = Wizard { stage: WizardStage::Catalog, ..self };
                (n, Step::Ask(Question::Select { label: "Select a writable catalog:\n".to_string(), choices }))
            },
        }
    }

    fn enter_after_url(self) -> (r: (Wizard, Step))
        ensures
            (r.0@, r.1@) == enter_after_url(self@),
    {
        match self.kind {
            WizardKind::CatalogAdd => {
                if self.writable_default {
                    Wizard { writable: true, ..self }.enter_summary()
                } else {
                    (
                        Wizard { stage: WizardStage::Writable, ..self },
                        Step::Ask(Question::Confirm { label: "Writable?".to_string(), default: false }),
                    )
                }
            },
            WizardKind::CatalogInitialize => (
                Wizard { stage: WizardStage::Writable, ..self },
                Step::Ask(Question::Confirm { label: "Writable?".to_string(), default: true }),
            ),
            WizardKind::ToolAdd => match copy_opt(&self.supplied_revision) {
                Some(r) => Wizard { revision: Some(r), ..self }.enter_catalog(),
                None => (
                    Wizard { stage: WizardStage::Revision, ..self },
                    Step::Ask(Question::Input { label: "Revision [remote default]:".to_string() }),
                ),
            },
        }
    }

    fn enter_url(self) -> (r: (Wizard, Step))
        ensures
            (r.0@, r.1@) == enter_url(self@),
    {
        match copy_opt(&self.supplied_url) {
            Some(u) => {
                if u.as_str().is_empty() {
                    self.stop(fail_step("Git URL must not be empty".to_string()))
                } else {
                    Wizard { url: u, ..self }.enter_after_url()
                }
            },
            None => {
                let label = url_label_exec(self.kind).to_string();
                (Wizard { stage: WizardStage::Url, ..self }, Step::Ask(Question::Input { label }))
            },
        }
    }

    fn enter_push(self) -> (r: (Wizard, Step))
        ensures
            (r.0@, r.1@) == enter_push(self@),
    {
        if !self.commit {
            Wizard { push: false, ..self }.finish()
        } else if self.kind == WizardKind::ToolAdd && self.push_default {
            Wizard { push: true, ..self }.finish()
        } else {
            let label = if self.kind == WizardKind::ToolAdd {
                "Push the catalog change?"
            } else {
                "Push the initial catalog commit?"
            };
            (
                Wizard { stage: WizardStage::Push, ..self },
                Step::Ask(Question::Confirm { label: label.to_string(), default: false }),
            )
        }
    }

    fn enter_after_proceed(self) -> (r: (Wizard, Step))
        ensures
            (r.0@, r.1@) == enter_after_proceed(self@),
    {
        match self.kind {
            WizardKind::CatalogAdd => self.finish(),
            WizardKind::CatalogInitialize => (
                Wizard { stage: WizardStage::Notice, ..self },
                message_step(
                    "Loadbot will only initialize an existing empty Git remote. It will create catalog.toml, but it will not commit or push unless you confirm each action.".to_string(),
                ),
            ),
            WizardKind::ToolAdd => {
                if self.commit_default {
                    Wizard { commit: true, ..self }.enter_push()
                } else {
                    (
                        Wizard { stage: WizardStage::Commit, ..self },
                        Step::Ask(Question::Confirm { label: "Commit the catalog change?".to_string(), default: false }),
                    )
                }
            },
        }
    }

    fn stage_question(&self) -> (r: Question)
        ensures
            r@ == stage_question(self@),
    {
        match self.stage {
            WizardStage::Name | WizardStage::NameRetry => Question::Input {
                label: name_label_exec(self.kind).to_string(),
            },
            WizardStage::Url | WizardStage::UrlRetry => Question::Input { label: url_label_exec(self.kind).to_string() },
            WizardStage::Writable => Question::Confirm {
                label: "Writable?".to_string(),
                default: self.kind == WizardKind::CatalogInitialize,
            },
            WizardStage::Revision => Question::Input { label: "Revision [remote default]:".to_string() },
            WizardStage::Catalog => Question::Select {
                label: "Select a writable catalog:\n".to_string(),
                choices: copy_all(&self.catalogs),
            },
            WizardStage::Summary => Question::Message(self.summary_text()),
            WizardStage::Proceed => Question::Confirm { label: "Proceed?".to_string(), default: true },
            WizardStage::Notice => Question::Message(
                "Loadbot will only initialize an existing empty Git remote. It will create catalog.toml, but it will not commit or push unless you confirm each action.".to_string(),
            ),
            WizardStage::Commit => Question::Confirm {
                label: if self.kind == WizardKind::ToolAdd {
                    "Commit the catalog change?".to_string()
                } else {
                    "Commit the initial catalog.toml?".to_string()
                },
                default: false,
            },
            WizardStage::Push => Question::Confirm {
                label: if self.kind == WizardKind::ToolAdd {
                    "Push the catalog change?".to_string()
                } else {
                    "Push the initial catalog commit?".to_string()
                },
                default: false,
            },
            WizardStage::Done => Question::Message(String::new()),
        }
    }

    /// The next state and step after `reply`; an answer that does not fit the
    /// question asks it again.
    pub fn reply(self, reply: Reply) -> (r: (Wizard, Step))
        requires
            self.stage != WizardStage::Done,
        ensures
            (r.0@, r.1@) == spec_reply(self@, reply@),
    {
        match (self.stage, reply) {
            (WizardStage::Name, Reply::Text(None)) => self.stop(Step::Finish(Ok(None))),
            (WizardStage::Name, Reply::Text(Some(n))) => {
                if validate_name(n.as_str()).is_ok() {
                    Wizard { name: n, ..self }.enter_url()
                } else {
                    let text = crate::paths::name_message(n.as_str());
                    (Wizard { stage: WizardStage::NameRetry, ..self }, message_step(text))
                }
            },
            (WizardStage::NameRetry, Reply::Shown) => {
                let label = name_label_exec(self.kind).to_string();
                (Wizard { stage: WizardStage::Name, ..self }, Step::Ask(Question::Input { label }))
            },
            (WizardStage::Url, Reply::Text(None)) => self.stop(Step::Finish(Ok(None))),
            (WizardStage::Url, Reply::Text(Some(u))) => {
                if !u.as_str().is_empty() {
                    Wizard { url: u, ..self }.enter_after_url()
                } else {
                    (Wizard { stage: WizardStage::UrlRetry, ..self }, message_step("Git URL must not be empty.".to_string()))
                }
            },
            (WizardStage::UrlRetry, Reply::Shown) => {
                let label = url_label_exec(self.kind).to_string();
                (Wizard { stage: WizardStage::Url, ..self }, Step::Ask(Question::Input { label }))
            },
            (WizardStage::Writable, Reply::Decision(None)) => self.stop(Step::Finish(Ok(None))),
            (WizardStage::Writable, Reply::Decision(Some(b))) => {
                if self.kind == WizardKind::CatalogInitialize && !b {
                    self.stop(fail_step("a catalog initialized by Loadbot must be writable".to_string()))
                } else {
                    Wizard { writable: b, ..self }.enter_summary()
                }
            },
            (WizardStage::Revision, Reply::Text(None)) => self.stop(Step::Finish(Ok(None))),
            (WizardStage::Revision, Reply::Text(Some(v))) => {
                let revision = if v.as_str().is_empty() { None } else { Some(v) };
                Wizard { revision, ..self }.enter_catalog()
            },
            (WizardStage::Catalog, Reply::Choice(None)) => self.stop(Step::Finish(Ok(None))),
            (WizardStage::Catalog, Reply::Choice(Some(c))) => Wizard { catalog: c, ..self }.enter_summary(),
            (WizardStage::Summary, Reply::Shown) => (
                Wizard { stage: WizardStage::Proceed, ..self },
                Step::Ask(Question::Confirm { label: "Proceed?".to_string(), default: true }),
            ),
            (WizardStage::Proceed, Reply::Decision(d)) => {
                if d == Some(true) {
                    self.enter_after_proceed()
                } else {
                    self.stop(Step::Finish(Ok(None)))
                }
            },
            (WizardStage::Notice, Reply::Shown) => (
                Wizard { stage: WizardStage::Commit, ..self },
                Step::Ask(Question::Confirm { label: "Commit the initial catalog.toml?".to_string(), default: false }),
            ),
            (WizardStage::Commit, Reply::Decision(None)) => self.stop(Step::Finish(Ok(None))),
            (WizardStage::Commit, Reply::Decision(Some(c))) => Wizard { commit: c, ..self }.enter_push(),
            (WizardStage::Push, Reply::Decision(None)) => self.stop(Step::Finish(Ok(None))),
            (WizardStage::Push, Reply::Decision(Some(p))) => Wizard { push: p, ..self }.finish(),
            _ => {
                let q = self.stage_question();
                (self, Step::Ask(q))
            },
        }
    }
}


/// The first step: a supplied name must be portable; otherwise it is asked for.
pub open spec fn spec_start(w: WizardView, supplied_name: Option<Seq<char>>) -> (WizardView, StepView) {
    match supplied_name {
        Some(n) => if spec_valid_name(n) {
            enter_url(WizardView { name: n, ..w })
        } else {
            stop(w, fail(spec_name_message(n)))
        },
        None => (WizardView { stage: WizardStage::Name, ..w }, StepView::Ask(QuestionView::Input { label: name_label(w.kind) })),
    }
}

/// A sequence of `kind` before anything was asked.
pub open spec fn fresh(
    kind: WizardKind,
    supplied_url: Option<Seq<char>>,
    supplied_revision: Option<Seq<char>>,
    supplied_catalog: Option<Seq<char>>,
    writable_default: bool,
    catalogs: Seq<Seq<char>>,
    commit_default: bool,
    push_default: bool,
) -> WizardView {
    WizardView {
        kind,
        stage: WizardStage::Name,
        name: Seq::empty(),
        url: Seq::empty(),
        revision: None,
        catalog: Seq::empty(),
        writable: false,
        commit: false,
        push: false,
        supplied_url,
        supplied_revision,
        supplied_catalog,
        writable_default,
        catalogs,
        commit_default,
        push_default,
    }
}

fn start(w: Wizard, supplied_name: Option<String>) -> (r: (Wizard, Step))
    ensures
        (r.0@, r.1@) == spec_start(w@, ov(supplied_name)),
{
    match supplied_name {
        Some(n) => {
            if validate_name(n.as_str()).is_ok() {
                Wizard { name: n, ..w }.enter_url()
            } else {
                let text = crate::paths::name_message(n.as_str());
                w.stop(fail_step(text))
            }
        },
        None => {
            let label = name_label_exec(w.kind).to_string();
            (Wizard { stage: WizardStage::Name, ..w }, Step::Ask(Question::Input { label }))
        },
    }
}

/// Collect a catalog to register: its name and URL (asked unless supplied),
/// whether it is writable (asked unless writable by default), and confirmation.
pub fn collect_catalog_add(supplied_name: Option<String>, supplied_url: Option<String>, writable_default: bool) -> (r: (
    Wizard,
    Step,
))
    ensures
        (r.0@, r.1@) == spec_start(
            fresh(WizardKind::CatalogAdd, ov(supplied_url), None, None, writable_default, seq![], false, false),
            ov(supplied_name),
        ),
{
    let w = Wizard {
        kind: WizardKind::CatalogAdd,
        stage: WizardStage::Name,
        name: String::new(),
        url: String::new(),
        revision: None,
        catalog: String::new(),
        writable: false,
        commit: false,
        push: false,
        supplied_url,
        supplied_revision: None,
        supplied_catalog: None,
        writable_default,
        catalogs: Vec::new(),
        commit_default: false,
        push_default: false,
    };
    assert(views(w.catalogs@) =~= seq![]);
    assert(w@ == fresh(WizardKind::CatalogAdd, ov(supplied_url), None, None, writable_default, seq![], false, false));
    start(w, supplied_name)
}

/// Collect a catalog to initialize: name, URL, writability (which must be
/// yes), confirmation, and separate commit and push decisions.
pub fn collect_catalog_initialize() -> (r: (Wizard, Step))
    ensures
        (r.0@, r.1@) == spec_start(
            fresh(WizardKind::CatalogInitialize, None, None, None, false, seq![], false, false),
            None,
        ),
{
    let w = Wizard {
        kind: WizardKind::CatalogInitialize,
        stage: WizardStage::Name,
        name: String::new(),
        url: String::new(),
        revision: None,
        catalog: String::new(),
        writable: false,
        commit: false,
        push: false,
        supplied_url: None,
        supplied_revision: None,
        supplied_catalog: None,
        writable_default: false,
        catalogs: Vec::new(),
        commit_default: false,
        push_default: false,
    };
    assert(views(w.catalogs@) =~= seq![]);
    assert(w@ == fresh(WizardKind::CatalogInitialize, None, None, None, false, seq![], false, false));
    start(w, None)
}

/// Collect a tool to add: name, URL and revision (asked unless supplied), a
/// writable catalog, confirmation, and whether to commit and push.
pub fn collect_tool_add(
    supplied_name: Option<String>,
    supplied_url: Option<String>,
    supplied_revision: Option<String>,
    supplied_catalog: Option<String>,
    writable_catalogs: Vec<String>,
    commit_default: bool,
    push_default: bool,
) -> (r: (Wizard, Step))
    ensures
        (r.0@, r.1@) == spec_start(
            fresh(
                WizardKind::ToolAdd,
                ov(supplied_url),
                ov(supplied_revision),
                ov(supplied_catalog),
                false,
                views(writable_catalogs@),
                commit_default,
                push_default,
            ),
            ov(supplied_name),
        ),
{
    let w = Wizard {
        kind: WizardKind::ToolAdd,
        stage: WizardStage::Name,
        name: String::new(),
        url: String::new(),
        revision: None,
        catalog: String::new(),
        writable: false,
        commit: false,
        push: false,
        supplied_url,
        supplied_revision,
        supplied_catalog,
        writable_default: false,
        catalogs: writable_catalogs,
        commit_default,
        push_default,
    };
    assert(w@ =~= fresh(
        WizardKind::ToolAdd,
        ov(supplied_url),
        ov(supplied_revision),
        ov(supplied_catalog),
        false,
        views(writable_catalogs@),
        commit_default,
        push_default,
    ));
    start(w, supplied_name)
}


/// What holds of every sequence before it finishes: nothing is pushed yet, the
/// push question comes only after a commit, and an initialized catalog is
/// writable once writability was answered.
pub open spec fn wizard_inv(w: WizardView) -> bool {
    &&& w.kind == WizardKind::CatalogInitialize ==> w.stage != WizardStage::Revision && w.stage != WizardStage::Catalog
    &&& w.kind == WizardKind::CatalogAdd ==> w.stage != WizardStage::Revision && w.stage != WizardStage::Catalog
        && w.stage != WizardStage::Notice && w.stage != WizardStage::Commit && w.stage != WizardStage::Push
    &&& w.kind == WizardKind::ToolAdd ==> w.stage != WizardStage::Writable && w.stage != WizardStage::Notice
    &&& w.stage != WizardStage::Done ==> !w.push
    &&& w.stage == WizardStage::Push ==> w.commit
    &&& (w.kind == WizardKind::CatalogInitialize && (w.stage == WizardStage::Summary || w.stage == WizardStage::Proceed
        || w.stage == WizardStage::Notice || w.stage == WizardStage::Commit || w.stage == WizardStage::Push))
        ==> w.writable
    &&& (w.stage != WizardStage::Name && w.stage != WizardStage::NameRetry && w.stage != WizardStage::Done)
        ==> spec_valid_name(w.name)
    &&& (w.stage != WizardStage::Name && w.stage != WizardStage::NameRetry && w.stage != WizardStage::Url && w.stage
        != WizardStage::UrlRetry && w.stage != WizardStage::Done) ==> w.url.len() > 0
    &&& (w.kind == WizardKind::ToolAdd && (w.stage == WizardStage::Summary || w.stage == WizardStage::Proceed
        || w.stage == WizardStage::Commit || w.stage == WizardStage::Push)) ==> w.catalogs.contains(w.catalog)
}

/// The answer fits the question: a catalog chosen is one of those offered.
pub open spec fn reply_fits(w: WizardView, r: ReplyView) -> bool {
    w.stage == WizardStage::Catalog ==> (r matches ReplyView::Choice(Some(c)) ==> w.catalogs.contains(c))
}

/// A collected input's name is valid and its URL is not empty; a tool is
/// added to one of the writable catalogs offered.
pub open spec fn output_valid(o: OutputView, catalogs: Seq<Seq<char>>) -> bool {
    match o {
        OutputView::CatalogAdd { name, url, .. } => spec_valid_name(name) && url.len() > 0,
        OutputView::CatalogInitialize { name, url, .. } => spec_valid_name(name) && url.len() > 0,
        OutputView::ToolAdd { name, url, catalog, .. } => spec_valid_name(name) && url.len() > 0 && catalogs.contains(
            catalog,
        ),
    }
}

/// What every collected input satisfies: a push only with a commit, and an
/// initialized catalog is writable.
pub open spec fn output_ok(o: OutputView) -> bool {
    match o {
        OutputView::CatalogAdd { .. } => true,
        OutputView::CatalogInitialize { writable, commit, push, .. } => writable && (push ==> commit),
        OutputView::ToolAdd { commit, push, .. } => push ==> commit,
    }
}

/// Every sequence starts in a state that satisfies the invariant, and its
/// first step never finishes with an input that breaks the rules.
pub proof fn lemma_start_keeps_rules(w: WizardView, supplied_name: Option<Seq<char>>)
    requires
        w.stage == WizardStage::Name,
        !w.push,
        !w.commit,
        !w.writable,
    ensures
        spec_start(w, supplied_name).0.stage != WizardStage::Done ==> wizard_inv(spec_start(w, supplied_name).0),
        spec_start(w, supplied_name).1 matches StepView::Finish(Ok(Some(o))) ==> output_ok(o) && output_valid(
            o,
            w.catalogs,
        ),
{
}

/// Each answer keeps the invariant, and a finished sequence's input satisfies
/// the rules: no push without a commit, an initialized catalog is writable,
/// the name is valid, the URL is not empty, and a tool goes to one of the
/// writable catalogs offered, where the chosen catalog was one of them.
pub proof fn lemma_reply_keeps_rules(w: WizardView, r: ReplyView)
    requires
        wizard_inv(w),
        w.stage != WizardStage::Done,
        reply_fits(w, r),
    ensures
        spec_reply(w, r).0.stage != WizardStage::Done ==> wizard_inv(spec_reply(w, r).0),
        spec_reply(w, r).0.catalogs == w.catalogs,
        spec_reply(w, r).1 matches StepView::Finish(Ok(Some(o))) ==> output_ok(o) && output_valid(o, w.catalogs),
{
}

/// A cancelled question ends the sequence with nothing collected, whatever was
/// answered before.
pub proof fn lemma_cancel_collects_nothing(w: WizardView, r: ReplyView)
    requires
        w.stage != WizardStage::Done,
        (w.stage == WizardStage::Name || w.stage == WizardStage::Url || w.stage == WizardStage::Revision)
            && r == ReplyView::Text(None) || (w.stage == WizardStage::Writable || w.stage == WizardStage::Proceed
            || w.stage == WizardStage::Commit || w.stage == WizardStage::Push) && r == ReplyView::Decision(None)
            || w.stage == WizardStage::Catalog && r == ReplyView::Choice(None),
    ensures
        spec_reply(w, r).1 == cancelled(),
        spec_reply(w, r).0.stage == WizardStage::Done,
{
}

/// A revision typed for a tool is the one collected: a non-empty answer is
/// kept as the revision, and only an empty one leaves the remote default.
pub proof fn lemma_typed_revision_is_recorded(w: WizardView, v: Seq<char>)
    requires
        w.kind == WizardKind::ToolAdd,
        w.stage == WizardStage::Revision,
    ensures
        v.len() > 0 ==> spec_reply(w, ReplyView::Text(Some(v))).0.revision == Some(v),
        v.len() == 0 ==> spec_reply(w, ReplyView::Text(Some(v))).0.revision is None,
{
}

/// Once the revision question is behind it, a tool's sequence keeps the
/// revision it has, and the input it finishes with carries that revision.
pub proof fn lemma_revision_is_kept(w: WizardView, r: ReplyView)
    requires
        w.kind == WizardKind::ToolAdd,
        w.stage != WizardStage::Done,
        w.stage != WizardStage::Revision,
        w.stage != WizardStage::Name,
        w.stage != WizardStage::NameRetry,
        w.stage != WizardStage::Url,
        w.stage != WizardStage::UrlRetry,
    ensures
        spec_reply(w, r).0.revision == w.revision,
        spec_reply(w, r).1 matches StepView::Finish(Ok(Some(OutputView::ToolAdd { revision, .. }))) ==> revision
            == w.revision,
{
}

} // verus!
