//! Rendering a response: what to print and what to store. The functions here
//! decide; the caller prints each line and writes each file, in order.

use vstd::prelude::*;
use crate::json::{pretty_json, pretty_of};
use crate::outcome::{ResponseHead, ResponseHeadModel};
use crate::text::{decimal, push_decimal, texts};

verus! {

/// One thing for the caller to do.
#[derive(Clone, Debug, PartialEq, Eq)]
pub enum RenderAction {
    /// Print this text and end the line.
    Print(String),
    /// Create or truncate the file at `path` and write `content` to it. If
    /// that fails, report it and go on with the actions that follow.
    Store { path: String, content: String },
}

pub enum RenderActionModel {
    Print(Seq<char>),
    Store { path: Seq<char>, content: Seq<char> },
}

impl View for RenderAction {
    type V = RenderActionModel;

    open spec fn view(&self) -> RenderActionModel {
        match self {
            RenderAction::Print(text) => RenderActionModel::Print(text@),
            RenderAction::Store { path, content } => RenderActionModel::Store {
                path: path@,
                content: content@,
            },
        }
    }
}

/// A list of actions, each by its model.
pub open spec fn action_models(actions: Seq<RenderAction>) -> Seq<RenderActionModel> {
    Seq::new(actions.len(), |i: int| actions[i]@)
}

/// The line that shows the status: the code, and the reason if there is one.
pub open spec fn status_line(status: u16, reason: Seq<char>) -> Seq<char> {
    "Status Code: "@ + decimal(status as nat) + if reason.len() > 0 {
        " "@ + reason
    } else {
        Seq::<char>::empty()
    }
}

/// The line that shows one header.
pub open spec fn header_line(header: (Seq<char>, Seq<char>)) -> Seq<char> {
    header.0 + ": "@ + header.1
}

/// What verbose mode prints before the body: the status, a title, and every
/// header on a line of its own, in the order received. Nothing otherwise.
pub open spec fn head_lines(head: ResponseHeadModel, verbose: bool) -> Seq<Seq<char>> {
    if verbose {
        seq![status_line(head.status, head.reason), "Response Headers:"@] + Seq::new(
            head.headers.len(),
            |i: int| header_line(head.headers[i]),
        )
    } else {
        Seq::<Seq<char>>::empty()
    }
}

/// The body as it is shown: pretty-printed where it is a JSON document,
/// unchanged where it is not.
pub open spec fn shown_body(body: Seq<char>) -> Seq<char> {
    match pretty_of(body) {
        Some(pretty) => pretty,
        None => body,
    }
}

/// What is done with the body: it is printed unless `silent`, then stored,
/// as received, if a path is given.
pub open spec fn body_actions(body: Seq<char>, silent: bool, store_path: Option<Seq<char>>) -> Seq<
    RenderActionModel,
> {
    (if silent {
        Seq::<RenderActionModel>::empty()
    } else {
        seq![RenderActionModel::Print(shown_body(body))]
    }) + (match store_path {
        Some(path) => seq![RenderActionModel::Store { path: path, content: body }],
        None => Seq::<RenderActionModel>::empty(),
    })
}

/// Every line of `lines` as an action that prints it.
pub open spec fn print_actions(lines: Seq<Seq<char>>) -> Seq<RenderActionModel> {
    Seq::new(lines.len(), |i: int| RenderActionModel::Print(lines[i]))
}

/// All that rendering a response does, in order.
pub open spec fn render_actions(
    head: ResponseHeadModel,
    body: Seq<char>,
    verbose: bool,
    silent: bool,
    store_path: Option<Seq<char>>,
) -> Seq<RenderActionModel> {
    print_actions(head_lines(head, verbose)) + body_actions(body, silent, store_path)
}

/// The characters of an optional text.
pub open spec fn optional_text(text: Option<&str>) -> Option<Seq<char>> {
    match text {
        Some(t) => Some(t@),
        None => None,
    }
}

/// The lines to print before the body is read. Silent mode does not
/// suppress them.
pub fn render_head(head: &ResponseHead, verbose: bool) -> (lines: Vec<String>)
    ensures
        texts(lines@) == head_lines(head@, verbose),
{
    let mut lines: Vec<String> = Vec::new();
    if !verbose {
        assert(texts(lines@) =~= head_lines(head@, verbose));
        return lines;
    }
    let mut status = "Status Code: ".to_owned();
    push_decimal(&mut status, head.status as u128);
    if !head.reason.as_str().is_empty() {
        status.append(" ");
        status.append(head.reason.as_str());
    }
    assert(status@ =~= status_line(head.status, head.reason@));
    lines.push(status);
    lines.push("Response Headers:".to_owned());
    let mut i: usize = 0;
    while i < head.headers.len()
        invariant
            i <= head.headers.len(),
            verbose,
            lines.len() == i + 2,
            texts(lines@) =~= head_lines(head@, verbose).take(i + 2),
        decreases head.headers.len() - i,
    {
        let mut line = head.headers[i].0.clone();
        line.append(": ");
        line.append(head.headers[i].1.as_str());
        assert(line@ =~= header_line(head@.headers[i as int]));
        lines.push(line);
        i += 1;
    }
    assert(head_lines(head@, verbose).take(head.headers.len() + 2) =~= head_lines(head@, verbose));
    lines
}

/// What to do with a body that has been read: print it unless `silent`,
/// pretty-printed where it is JSON; then store it, as received, if
/// `store_path` is given.
pub fn render_body(body: &str, silent: bool, store_path: Option<&str>) -> (actions: Vec<
    RenderAction,
>)
    ensures
        action_models(actions@) == body_actions(body@, silent, optional_text(store_path)),
{
    let mut actions: Vec<RenderAction> = Vec::new();
    if !silent {
        let shown = match pretty_json(body) {
            Some(pretty) => pretty,
            None => body.to_owned(),
        };
        actions.push(RenderAction::Print(shown));
    }
    match store_path {
        Some(path) => {
            actions.push(RenderAction::Store { path: path.to_owned(), content: body.to_owned() });
        },
        None => {},
    }
    assert(action_models(actions@) =~= body_actions(body@, silent, optional_text(store_path)));
    actions
}

/// Renders a response whose body is at hand: the lines of `render_head`,
/// then the actions of `render_body`.
pub fn render(
    head: &ResponseHead,
    body: &str,
    verbose: bool,
    silent: bool,
    store_path: Option<&str>,
) -> (actions: Vec<RenderAction>)
    ensures
        action_models(actions@) == render_actions(
            head@,
            body@,
            verbose,
            silent,
            optional_text(store_path),
        ),
{
    let lines = render_head(head, verbose);
    let mut actions: Vec<RenderAction> = Vec::new();
    let mut i: usize = 0;
    while i < lines.len()
        invariant
            i <= lines.len(),
            actions.len() == i,
            forall|j: int| 0 <= j < i ==> actions@[j]@ == RenderActionModel::Print(lines@[j]@),
        decreases lines.len() - i,
    {
        actions.push(RenderAction::Print(lines[i].clone()));
        i += 1;
    }
    assert(action_models(actions@) =~= print_actions(texts(lines@)));
    let mut rest = render_body(body, silent, store_path);
    let ghost first = actions@;
    let ghost second = rest@;
    actions.append(&mut rest);
    assert(action_models(actions@) =~= action_models(first) + action_models(second));
    actions
}

} // verus!
