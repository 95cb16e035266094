//! What holds of texts, and of the plain contents of the values that carry them.

use vstd::prelude::*;

use crate::renderer::TermLines;
use crate::screen::{line_models, widget_models, StyledLine, Widget};
use crate::text::{occurs, occurs_at, padded, texts};
use crate::worker_manager::{
    subkey_models, value_models, EventModel, RegistryValue, Work, WorkModel, WorkerEvent,
};
use crate::worker_runtime::RuntimeAction;

verus! {

/// A term stands in a text exactly where the text is the term with something, or nothing, before
/// and behind it.
pub proof fn law_occurs_between_two_parts(term: Seq<char>, text: Seq<char>)
    ensures
        occurs(term, text) <==> exists|left: Seq<char>, right: Seq<char>|
            text == #[trigger] (left + term + right),
{
    if occurs(term, text) {
        let at = choose|at: int| occurs_at(term, text, at);
        let left = text.take(at);
        let right = text.skip(at + term.len());
        let part = text.subrange(at, at + term.len());
        assert(part == term);
        assert(text =~= left + part + right);
        assert(text == left + term + right);
    }
    if exists|left: Seq<char>, right: Seq<char>| text == #[trigger] (left + term + right) {
        let (left, right) = choose|left: Seq<char>, right: Seq<char>|
            text == #[trigger] (left + term + right);
        assert(text.subrange(left.len() as int, left.len() + term.len() as int) =~= term);
        assert(occurs_at(term, text, left.len() as int));
    }
}

/// Filling up keeps the text in front, adds blanks alone, and none beyond the width.
pub proof fn law_padding_adds_blanks_behind(text: Seq<char>, width: nat)
    ensures
        padded(text, width).len() == if text.len() < width {
            width
        } else {
            text.len()
        },
        forall|i: int| 0 <= i < text.len() ==> #[trigger] padded(text, width)[i] == text[i],
        forall|i: int|
            text.len() <= i < padded(text, width).len() ==> #[trigger] padded(text, width)[i]
                == ' ',
{
}

/// The contents of a list of texts are those of each text, one for one and in their order.
pub proof fn law_texts_one_for_one(list: Seq<String>)
    ensures
        texts(list).len() == list.len(),
        forall|i: int| 0 <= i < list.len() ==> #[trigger] texts(list)[i] == list[i]@,
{
}

/// The contents of lines are those of each line, one for one and in their order: its text and its
/// colour.
pub proof fn law_lines_one_for_one(lines: Seq<StyledLine>)
    ensures
        line_models(lines).len() == lines.len(),
        forall|i: int|
            0 <= i < lines.len() ==> {
                &&& (#[trigger] line_models(lines)[i]).text == lines[i].text@
                &&& line_models(lines)[i].colour == lines[i].colour
            },
{
}

/// The contents of widgets are those of each widget, one for one and in their order: its place,
/// its frame with title and colours, its lines, and whether they wrap.
pub proof fn law_widgets_one_for_one(widgets: Seq<Widget>)
    ensures
        widget_models(widgets).len() == widgets.len(),
        forall|i: int|
            0 <= i < widgets.len() ==> {
                let widget = #[trigger] widgets[i];
                let model = widget_models(widgets)[i];
                &&& model.area == widget.area
                &&& model.wrap == widget.wrap
                &&& model.lines.len() == widget.lines@.len()
                &&& forall|k: int|
                    0 <= k < widget.lines@.len() ==> {
                        &&& (#[trigger] model.lines[k]).text == widget.lines@[k].text@
                        &&& model.lines[k].colour == widget.lines@[k].colour
                    }
                &&& model.panel is Some <==> widget.panel is Some
                &&& widget.panel is Some ==> {
                    &&& model.panel->0.title == widget.panel->0.title@
                    &&& model.panel->0.border == widget.panel->0.border
                    &&& model.panel->0.background == widget.panel->0.background
                }
            },
{
}

/// What was read of a registry is taken as it is, one for one and in its order: of a subkey its
/// name, of a value its name, its data and its type, of a failure the text of the error.
pub proof fn law_reads_one_for_one(
    subkeys: Seq<Result<String, String>>,
    values: Seq<Result<RegistryValue, String>>,
)
    ensures
        subkey_models(subkeys).len() == subkeys.len(),
        forall|i: int|
            0 <= i < subkeys.len() ==> match #[trigger] subkeys[i] {
                Ok(name) => subkey_models(subkeys)[i] == Ok::<Seq<char>, Seq<char>>(name@),
                Err(error) => subkey_models(subkeys)[i] == Err::<Seq<char>, Seq<char>>(error@),
            },
        value_models(values).len() == values.len(),
        forall|i: int|
            0 <= i < values.len() ==> match #[trigger] values[i] {
                Ok(value) => {
                    &&& value_models(values)[i] is Ok
                    &&& value_models(values)[i]->Ok_0.name == value.name@
                    &&& value_models(values)[i]->Ok_0.data == value.data@
                    &&& value_models(values)[i]->Ok_0.kind == value.kind@
                },
                Err(error) => {
                    &&& value_models(values)[i] is Err
                    &&& value_models(values)[i]->Err_0 == error@
                },
            },
{
}

/// What a worker is to do, what has happened to it, and what the run control asks for are taken as
/// they are: the same case, with the same texts.
pub proof fn law_orders_are_taken_as_they_are(
    work: Work,
    event: WorkerEvent,
    action: RuntimeAction,
)
    ensures
        match work {
            Work::Process(key_path) => work@ == WorkModel::Process(key_path@),
            Work::Wait => work@ is Wait,
            Work::Exit => work@ is Exit,
        },
        match event {
            WorkerEvent::Started => event@ is Started,
            WorkerEvent::Processed { key_path, outcome } => {
                &&& event@ is Processed
                &&& event@->key_path == key_path@
                &&& outcome is Ok ==> event@->outcome is Ok
                &&& outcome is Err ==> event@->outcome == Err::<(), Seq<char>>(outcome->Err_0@)
            },
            WorkerEvent::Woken(signal) => event@ == EventModel::Woken(signal),
        },
        match action {
            RuntimeAction::Continue => action@ is Continue,
            RuntimeAction::StartSearch { roots, search_terms } => {
                &&& action@ is StartSearch
                &&& action@->roots == roots@
                &&& action@->search_terms.len() == search_terms@.len()
                &&& forall|i: int|
                    0 <= i < search_terms@.len() ==> #[trigger] action@->search_terms[i]
                        == search_terms@[i]@
            },
            RuntimeAction::Exit => action@ is Exit,
        },
{
}

/// The search terms are shown line for line, in the look of the state that their pane is in.
pub proof fn law_term_lines_one_for_one(terms: TermLines, i: int)
    ensures
        terms.shown(true).len() == terms.selected@.len(),
        terms.shown(false).len() == terms.unselected@.len(),
        0 <= i < terms.selected@.len() ==> {
            &&& terms.shown(true)[i].text == terms.selected@[i].text@
            &&& terms.shown(true)[i].colour == terms.selected@[i].colour
        },
        0 <= i < terms.unselected@.len() ==> {
            &&& terms.shown(false)[i].text == terms.unselected@[i].text@
            &&& terms.shown(false)[i].colour == terms.unselected@[i].colour
        },
{
}

} // verus!
