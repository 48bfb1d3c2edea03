//! The sign protocol's animations: which one a message selects, and the steps
//! (fill the panel, pause, scroll the text) that the caller performs for it.

use vstd::prelude::*;
use vstd::string::*;
use crate::frame::blank;
use crate::glyph::Glyph;
use crate::message::data_view;
use crate::text::{strip_columns, text_strip, window_frame};

verus! {

/// The animations a sign message can select.
#[derive(Clone, Copy, Debug, PartialEq, Eq, Structural)]
pub enum MatrixAnimationTypes {
    Text,
    FlashRed,
    FlashGreen,
    FlashBlue,
    FlashWhite,
    SolidRed,
    SolidGreen,
    SolidBlue,
    SolidWhite,
    Empty,
}

/// The animation currently selected, with the text it scrolls.
pub struct MatrixAnimationData {
    pub matrix_animation_state: MatrixAnimationTypes,
    pub string_text: String,
}

/// One thing for the caller to do with the panel.
#[derive(Clone, Copy, Debug, PartialEq, Eq, Structural)]
pub enum AnimationStep {
    /// Scroll the selected text across the panel.
    ScrollText,
    /// Set every LED to this colour and write the frame to the panel.
    Fill { red: u8, green: u8, blue: u8 },
    /// Wait this many milliseconds.
    Pause { millis: u64 },
}

/// How long a colour is held, in milliseconds.
pub const HOLD_MILLIS: u64 = 300;

/// The animation selected by a state field, as it appears rendered in JSON
/// (with its quotes); anything else selects `Empty`.
pub open spec fn state_named(s: Seq<char>) -> MatrixAnimationTypes {
    if s == "\"text\""@ {
        MatrixAnimationTypes::Text
    } else if s == "\"flashRed\""@ {
        MatrixAnimationTypes::FlashRed
    } else if s == "\"flashGreen\""@ {
        MatrixAnimationTypes::FlashGreen
    } else if s == "\"flashBlue\""@ {
        MatrixAnimationTypes::FlashBlue
    } else if s == "\"flashWhite\""@ {
        MatrixAnimationTypes::FlashWhite
    } else if s == "\"solidRed\""@ {
        MatrixAnimationTypes::SolidRed
    } else if s == "\"solidGreen\""@ {
        MatrixAnimationTypes::SolidGreen
    } else if s == "\"solidBlue\""@ {
        MatrixAnimationTypes::SolidBlue
    } else if s == "\"solidWhite\""@ {
        MatrixAnimationTypes::SolidWhite
    } else {
        MatrixAnimationTypes::Empty
    }
}

/// The colour step shown, then held, by the colour animations.
pub open spec fn colour_of(kind: MatrixAnimationTypes) -> AnimationStep {
    match kind {
        MatrixAnimationTypes::FlashRed | MatrixAnimationTypes::SolidRed => AnimationStep::Fill {
            red: 200,
            green: 0,
            blue: 0,
        },
        MatrixAnimationTypes::FlashGreen | MatrixAnimationTypes::SolidGreen => AnimationStep::Fill {
            red: 0,
            green: 200,
            blue: 0,
        },
        MatrixAnimationTypes::FlashBlue | MatrixAnimationTypes::SolidBlue => AnimationStep::Fill {
            red: 0,
            green: 0,
            blue: 200,
        },
        MatrixAnimationTypes::FlashWhite | MatrixAnimationTypes::SolidWhite => AnimationStep::Fill {
            red: 90,
            green: 90,
            blue: 90,
        },
        _ => AnimationStep::Fill { red: 0, green: 0, blue: 0 },
    }
}

/// Whether `kind` flashes a colour (shows it, holds it, then goes dark).
pub open spec fn is_flash(kind: MatrixAnimationTypes) -> bool {
    kind == MatrixAnimationTypes::FlashRed || kind == MatrixAnimationTypes::FlashGreen || kind
        == MatrixAnimationTypes::FlashBlue || kind == MatrixAnimationTypes::FlashWhite
}

/// The steps of one round of animation `kind`.
pub open spec fn animation_plan(kind: MatrixAnimationTypes) -> Seq<AnimationStep> {
    let hold = AnimationStep::Pause { millis: HOLD_MILLIS };
    let dark = AnimationStep::Fill { red: 0, green: 0, blue: 0 };
    if kind == MatrixAnimationTypes::Text {
        seq![AnimationStep::ScrollText]
    } else if is_flash(kind) {
        seq![colour_of(kind), hold, dark]
    } else {
        seq![colour_of(kind), hold]
    }
}

fn is_named(s: &String, name: &str) -> (b: bool)
    ensures
        b == (s@ == name@),
{
    let owned = name.to_owned();
    *s == owned
}

/// The animation selected by a state field rendered as JSON text (quotes
/// included): `"text"`, `"flashRed"`, ..., `"empty"`; anything else selects `Empty`.
pub fn parse_matrix_states(matrix_state_str: String) -> (state: MatrixAnimationTypes)
    ensures
        state == state_named(matrix_state_str@),
{
    if is_named(&matrix_state_str, "\"text\"") {
        MatrixAnimationTypes::Text
    } else if is_named(&matrix_state_str, "\"flashRed\"") {
        MatrixAnimationTypes::FlashRed
    } else if is_named(&matrix_state_str, "\"flashGreen\"") {
        MatrixAnimationTypes::FlashGreen
    } else if is_named(&matrix_state_str, "\"flashBlue\"") {
        MatrixAnimationTypes::FlashBlue
    } else if is_named(&matrix_state_str, "\"flashWhite\"") {
        MatrixAnimationTypes::FlashWhite
    } else if is_named(&matrix_state_str, "\"solidRed\"") {
        MatrixAnimationTypes::SolidRed
    } else if is_named(&matrix_state_str, "\"solidGreen\"") {
        MatrixAnimationTypes::SolidGreen
    } else if is_named(&matrix_state_str, "\"solidBlue\"") {
        MatrixAnimationTypes::SolidBlue
    } else if is_named(&matrix_state_str, "\"solidWhite\"") {
        MatrixAnimationTypes::SolidWhite
    } else {
        MatrixAnimationTypes::Empty
    }
}

fn colour_step(kind: MatrixAnimationTypes) -> (step: AnimationStep)
    ensures
        step == colour_of(kind),
{
    match kind {
        MatrixAnimationTypes::FlashRed | MatrixAnimationTypes::SolidRed => AnimationStep::Fill {
            red: 200,
            green: 0,
            blue: 0,
        },
        MatrixAnimationTypes::FlashGreen | MatrixAnimationTypes::SolidGreen => AnimationStep::Fill {
            red: 0,
            green: 200,
            blue: 0,
        },
        MatrixAnimationTypes::FlashBlue | MatrixAnimationTypes::SolidBlue => AnimationStep::Fill {
            red: 0,
            green: 0,
            blue: 200,
        },
        MatrixAnimationTypes::FlashWhite | MatrixAnimationTypes::SolidWhite => AnimationStep::Fill {
            red: 90,
            green: 90,
            blue: 90,
        },
        _ => AnimationStep::Fill { red: 0, green: 0, blue: 0 },
    }
}

/// The steps of one round of the selected animation: scroll the text; or show
/// the colour, hold it 300 ms and, for the flashing kinds, go dark; or (for
/// `Empty`) go dark and hold.
pub fn process_matrix_animation(matrix_string: &MatrixAnimationData) -> (steps: Vec<AnimationStep>)
    ensures
        steps@ == animation_plan(matrix_string.matrix_animation_state),
{
    let kind = matrix_string.matrix_animation_state;
    let mut steps: Vec<AnimationStep> = Vec::new();
    if kind == MatrixAnimationTypes::Text {
        steps.push(AnimationStep::ScrollText);
    } else {
        steps.push(colour_step(kind));
        steps.push(AnimationStep::Pause { millis: HOLD_MILLIS });
        if kind == MatrixAnimationTypes::FlashRed || kind == MatrixAnimationTypes::FlashGreen
            || kind == MatrixAnimationTypes::FlashBlue || kind == MatrixAnimationTypes::FlashWhite {
            steps.push(AnimationStep::Fill { red: 0, green: 0, blue: 0 });
        }
    }
    assert(steps@ =~= animation_plan(kind));
    steps
}

impl MatrixAnimationData {
    /// The selection the sign starts with: scroll an empty text.
    pub fn new() -> (data: MatrixAnimationData)
        ensures
            data.matrix_animation_state == MatrixAnimationTypes::Text,
            data.string_text@ == Seq::<char>::empty(),
    {
        MatrixAnimationData {
            matrix_animation_state: MatrixAnimationTypes::Text,
            string_text: String::new(),
        }
    }
}

/// A selection as plain values: the animation and its text.
pub open spec fn selection_of(d: MatrixAnimationData) -> (MatrixAnimationTypes, Seq<char>) {
    (d.matrix_animation_state, d.string_text@)
}

/// The selection after one turn of the animation loop: a message received
/// replaces it, a timeout keeps it.
pub open spec fn turn(
    selection: (MatrixAnimationTypes, Seq<char>),
    received: Option<(MatrixAnimationTypes, Seq<char>)>,
) -> (MatrixAnimationTypes, Seq<char>) {
    match received {
        Some(d) => d,
        None => selection,
    }
}

/// The selection after the turns in which `received[0]`, `received[1]`, ...
/// arrived (`None` for a turn whose wait timed out), starting from `initial`.
pub open spec fn selection_after(
    initial: (MatrixAnimationTypes, Seq<char>),
    received: Seq<Option<(MatrixAnimationTypes, Seq<char>)>>,
) -> (MatrixAnimationTypes, Seq<char>)
    decreases received.len(),
{
    if received.len() == 0 {
        initial
    } else {
        turn(selection_after(initial, received.drop_last()), received.last())
    }
}

/// One turn of the animation loop: `received` is the message that arrived
/// while waiting (or `None` when the wait timed out). A new message replaces
/// the selection; then the steps of one round of the selected animation are
/// returned for the caller to perform.
pub fn handle_matrix_animation(
    latest: &mut MatrixAnimationData,
    received: Option<MatrixAnimationData>,
) -> (steps: Vec<AnimationStep>)
    ensures
        match received {
            Some(data) => *final(latest) == data,
            None => *final(latest) == *old(latest),
        },
        selection_of(*final(latest)) == turn(selection_of(*old(latest)), data_view(received)),
        steps@ == animation_plan(final(latest).matrix_animation_state),
{
    match received {
        Some(data) => {
            *latest = data;
        },
        None => {},
    }
    process_matrix_animation(latest)
}

/// The state field, rendered as JSON text, that selects `kind`.
pub open spec fn state_name(kind: MatrixAnimationTypes) -> Seq<char> {
    match kind {
        MatrixAnimationTypes::Text => "\"text\""@,
        MatrixAnimationTypes::FlashRed => "\"flashRed\""@,
        MatrixAnimationTypes::FlashGreen => "\"flashGreen\""@,
        MatrixAnimationTypes::FlashBlue => "\"flashBlue\""@,
        MatrixAnimationTypes::FlashWhite => "\"flashWhite\""@,
        MatrixAnimationTypes::SolidRed => "\"solidRed\""@,
        MatrixAnimationTypes::SolidGreen => "\"solidGreen\""@,
        MatrixAnimationTypes::SolidBlue => "\"solidBlue\""@,
        MatrixAnimationTypes::SolidWhite => "\"solidWhite\""@,
        MatrixAnimationTypes::Empty => "\"empty\""@,
    }
}

/// Law: every animation has a state name, and that name selects it.
pub proof fn law_state_name_selects(kind: MatrixAnimationTypes)
    ensures
        state_named(state_name(kind)) == kind,
{
    reveal_strlit("\"text\"");
    reveal_strlit("\"flashRed\"");
    reveal_strlit("\"flashGreen\"");
    reveal_strlit("\"flashBlue\"");
    reveal_strlit("\"flashWhite\"");
    reveal_strlit("\"solidRed\"");
    reveal_strlit("\"solidGreen\"");
    reveal_strlit("\"solidBlue\"");
    reveal_strlit("\"solidWhite\"");
    reveal_strlit("\"empty\"");
    assert("\"text\""@.len() == 6);
    assert("\"text\""@[1] == 't');
    assert("\"flashRed\""@.len() == 10);
    assert("\"flashRed\""@[1] == 'f');
    assert("\"flashRed\""@[6] == 'R');
    assert("\"flashGreen\""@.len() == 12);
    assert("\"flashGreen\""@[1] == 'f');
    assert("\"flashGreen\""@[6] == 'G');
    assert("\"flashBlue\""@.len() == 11);
    assert("\"flashBlue\""@[1] == 'f');
    assert("\"flashBlue\""@[6] == 'B');
    assert("\"flashWhite\""@.len() == 12);
    assert("\"flashWhite\""@[1] == 'f');
    assert("\"flashWhite\""@[6] == 'W');
    assert("\"solidRed\""@.len() == 10);
    assert("\"solidRed\""@[1] == 's');
    assert("\"solidRed\""@[6] == 'R');
    assert("\"solidGreen\""@.len() == 12);
    assert("\"solidGreen\""@[1] == 's');
    assert("\"solidGreen\""@[6] == 'G');
    assert("\"solidBlue\""@.len() == 11);
    assert("\"solidBlue\""@[1] == 's');
    assert("\"solidBlue\""@[6] == 'B');
    assert("\"solidWhite\""@.len() == 12);
    assert("\"solidWhite\""@[1] == 's');
    assert("\"solidWhite\""@[6] == 'W');
    assert("\"empty\""@.len() == 7);
    assert("\"empty\""@[1] == 'e');
    assert("\"empty\""@[6] == '"');
}

/// Law: a flashing animation shows its colour, holds it for 300 ms, and leaves
/// the panel dark.
pub proof fn law_flash_ends_dark(kind: MatrixAnimationTypes)
    requires
        is_flash(kind),
    ensures
        animation_plan(kind).len() == 3,
        animation_plan(kind)[0] == colour_of(kind),
        animation_plan(kind)[1] == (AnimationStep::Pause { millis: HOLD_MILLIS }),
        animation_plan(kind).last() == (AnimationStep::Fill { red: 0, green: 0, blue: 0 }),
{
}

/// Law: every animation but text scrolling fills the panel and then holds it
/// for 300 ms; text scrolling does nothing else.
pub proof fn law_colour_is_held(kind: MatrixAnimationTypes)
    ensures
        kind == MatrixAnimationTypes::Text ==> animation_plan(kind) == seq![AnimationStep::ScrollText],
        kind != MatrixAnimationTypes::Text ==> {
            &&& animation_plan(kind)[0] == colour_of(kind)
            &&& animation_plan(kind)[1] == (AnimationStep::Pause { millis: HOLD_MILLIS })
        },
{
}

/// Law: over any run of turns, the selection is the latest message received
/// (each turn takes at most one, in the order the turns ran), or the initial
/// selection when none has arrived; every turn then plays that selection's plan.
pub proof fn law_latest_message_repeats(
    initial: (MatrixAnimationTypes, Seq<char>),
    received: Seq<Option<(MatrixAnimationTypes, Seq<char>)>>,
    k: int,
)
    requires
        0 <= k < received.len(),
        received[k] is Some,
        forall|j: int| k < j < received.len() ==> received[j] is None,
    ensures
        selection_after(initial, received) == received[k]->0,
    decreases received.len(),
{
    if k < received.len() - 1 {
        law_latest_message_repeats(initial, received.drop_last(), k);
    }
}

/// Law: when no message arrives, the selection stays as it started.
pub proof fn law_no_message_keeps_selection(
    initial: (MatrixAnimationTypes, Seq<char>),
    received: Seq<Option<(MatrixAnimationTypes, Seq<char>)>>,
)
    requires
        forall|j: int| 0 <= j < received.len() ==> received[j] is None,
    ensures
        selection_after(initial, received) == initial,
    decreases received.len(),
{
    if received.len() > 0 {
        law_no_message_keeps_selection(initial, received.drop_last());
    }
}

/// Law: a sign to which no message arrives keeps its starting selection
/// (scroll an empty text), each turn plays one scroll, and every frame of that
/// scroll is the dark frame.
pub proof fn law_idle_sign_is_dark(
    received: Seq<Option<(MatrixAnimationTypes, Seq<char>)>>,
    glyphs: Seq<Glyph>,
    offset: int,
)
    requires
        forall|j: int| 0 <= j < received.len() ==> received[j] is None,
    ensures
        selection_after((MatrixAnimationTypes::Text, Seq::<char>::empty()), received) == (
            MatrixAnimationTypes::Text,
            Seq::<char>::empty(),
        ),
        animation_plan(MatrixAnimationTypes::Text) == seq![AnimationStep::ScrollText],
        window_frame(
            text_strip(Seq::<char>::empty(), glyphs),
            strip_columns(Seq::<char>::empty()),
            offset,
        ) == blank(),
{
    law_no_message_keeps_selection((MatrixAnimationTypes::Text, Seq::<char>::empty()), received);
    crate::text::law_empty_text_is_dark(glyphs, offset);
}

/// Law: what each animation does, by value. Text scrolls; the red kinds show
/// (200, 0, 0), the green kinds (0, 200, 0), the blue kinds (0, 0, 200), the
/// white kinds (90, 90, 90), each held 300 ms; only the four flashing kinds then
/// go dark, so a solid colour stays on the panel; `Empty` shows dark and holds.
pub proof fn law_animation_plans_by_value()
    ensures
        animation_plan(MatrixAnimationTypes::Text) == seq![AnimationStep::ScrollText],
        animation_plan(MatrixAnimationTypes::FlashRed) == seq![AnimationStep::Fill { red: 200, green: 0, blue: 0 }, AnimationStep::Pause { millis: 300 }, AnimationStep::Fill { red: 0, green: 0, blue: 0 }],
        animation_plan(MatrixAnimationTypes::FlashGreen) == seq![AnimationStep::Fill { red: 0, green: 200, blue: 0 }, AnimationStep::Pause { millis: 300 }, AnimationStep::Fill { red: 0, green: 0, blue: 0 }],
        animation_plan(MatrixAnimationTypes::FlashBlue) == seq![AnimationStep::Fill { red: 0, green: 0, blue: 200 }, AnimationStep::Pause { millis: 300 }, AnimationStep::Fill { red: 0, green: 0, blue: 0 }],
        animation_plan(MatrixAnimationTypes::FlashWhite) == seq![AnimationStep::Fill { red: 90, green: 90, blue: 90 }, AnimationStep::Pause { millis: 300 }, AnimationStep::Fill { red: 0, green: 0, blue: 0 }],
        animation_plan(MatrixAnimationTypes::SolidRed) == seq![AnimationStep::Fill { red: 200, green: 0, blue: 0 }, AnimationStep::Pause { millis: 300 }],
        animation_plan(MatrixAnimationTypes::SolidGreen) == seq![AnimationStep::Fill { red: 0, green: 200, blue: 0 }, AnimationStep::Pause { millis: 300 }],
        animation_plan(MatrixAnimationTypes::SolidBlue) == seq![AnimationStep::Fill { red: 0, green: 0, blue: 200 }, AnimationStep::Pause { millis: 300 }],
        animation_plan(MatrixAnimationTypes::SolidWhite) == seq![AnimationStep::Fill { red: 90, green: 90, blue: 90 }, AnimationStep::Pause { millis: 300 }],
        animation_plan(MatrixAnimationTypes::Empty) == seq![AnimationStep::Fill { red: 0, green: 0, blue: 0 }, AnimationStep::Pause { millis: 300 }],
{
}

/// Law: each flashing kind plays its solid counterpart and then goes dark.
pub proof fn law_flash_is_solid_then_dark()
    ensures
        animation_plan(MatrixAnimationTypes::FlashRed) == animation_plan(
            MatrixAnimationTypes::SolidRed,
        ).push(AnimationStep::Fill { red: 0, green: 0, blue: 0 }),
        animation_plan(MatrixAnimationTypes::FlashGreen) == animation_plan(
            MatrixAnimationTypes::SolidGreen,
        ).push(AnimationStep::Fill { red: 0, green: 0, blue: 0 }),
        animation_plan(MatrixAnimationTypes::FlashBlue) == animation_plan(
            MatrixAnimationTypes::SolidBlue,
        ).push(AnimationStep::Fill { red: 0, green: 0, blue: 0 }),
        animation_plan(MatrixAnimationTypes::FlashWhite) == animation_plan(
            MatrixAnimationTypes::SolidWhite,
        ).push(AnimationStep::Fill { red: 0, green: 0, blue: 0 }),
{
    assert(animation_plan(MatrixAnimationTypes::FlashRed) =~= animation_plan(
        MatrixAnimationTypes::SolidRed,
    ).push(AnimationStep::Fill { red: 0, green: 0, blue: 0 }));
    assert(animation_plan(MatrixAnimationTypes::FlashGreen) =~= animation_plan(
        MatrixAnimationTypes::SolidGreen,
    ).push(AnimationStep::Fill { red: 0, green: 0, blue: 0 }));
    assert(animation_plan(MatrixAnimationTypes::FlashBlue) =~= animation_plan(
        MatrixAnimationTypes::SolidBlue,
    ).push(AnimationStep::Fill { red: 0, green: 0, blue: 0 }));
    assert(animation_plan(MatrixAnimationTypes::FlashWhite) =~= animation_plan(
        MatrixAnimationTypes::SolidWhite,
    ).push(AnimationStep::Fill { red: 0, green: 0, blue: 0 }));
}

/// Law: a state field that is none of the nine animation names (quoted as
/// JSON renders them) selects `Empty`; so does the name of `Empty` itself.
pub proof fn law_unknown_name_is_empty(s: Seq<char>)
    requires
        s != "\"text\""@,
        s != "\"flashRed\""@,
        s != "\"flashGreen\""@,
        s != "\"flashBlue\""@,
        s != "\"flashWhite\""@,
        s != "\"solidRed\""@,
        s != "\"solidGreen\""@,
        s != "\"solidBlue\""@,
        s != "\"solidWhite\""@,
    ensures
        state_named(s) == MatrixAnimationTypes::Empty,
{
}

} // verus!
