//! How the arguments of commands are understood.

use vstd::prelude::*;
use crate::app::command::{CaffeinateMode, CopyFormat, LlmMode, caffeinate_mode, copy_format, llm_request, pane_side, sandbox_request};

verus! {


proof fn lemma_argument_words()
    ensures
        ""@.len() == 0,
        "left"@.len() == 4 && "left"@[0] == 'l',
        "right"@.len() == 5,
        "top"@.len() == 3 && "top"@[0] == 't',
        "up"@.len() == 2 && "up"@[0] == 'u',
        "bottom"@.len() == 6 && "bottom"@[0] == 'b',
        "down"@.len() == 4 && "down"@[0] == 'd',
        "on"@.len() == 2 && "on"@[0] == 'o',
        "off"@.len() == 3 && "off"@[0] == 'o',
        "toggle"@.len() == 6 && "toggle"@[0] == 't',
        "defend"@.len() == 6 && "defend"@[0] == 'd',
        "defensive"@.len() == 9,
        "normal"@.len() == 6 && "normal"@[0] == 'n',
        "until-idle"@.len() == 10,
        "markdown"@.len() == 8 && "markdown"@[0] == 'm',
        "plain"@.len() == 5,
        "plaintext"@.len() == 9,
        "rich"@.len() == 4,
        "richtext"@.len() == 8 && "richtext"@[0] == 'r',
{
    reveal_strlit("");
    reveal_strlit("left");
    reveal_strlit("right");
    reveal_strlit("top");
    reveal_strlit("up");
    reveal_strlit("bottom");
    reveal_strlit("down");
    reveal_strlit("on");
    reveal_strlit("off");
    reveal_strlit("toggle");
    reveal_strlit("defend");
    reveal_strlit("defensive");
    reveal_strlit("normal");
    reveal_strlit("until-idle");
    reveal_strlit("markdown");
    reveal_strlit("plain");
    reveal_strlit("plaintext");
    reveal_strlit("rich");
    reveal_strlit("richtext");
}

/// A pane goes to the side that the argument names, and takes the whole area without one.
pub proof fn sides_are_named(w: Seq<char>)
    ensures
        pane_side(w) is Left <==> w == "left"@,
        pane_side(w) is Right <==> w == "right"@,
        pane_side(w) is Top <==> w == "top"@ || w == "up"@,
        pane_side(w) is Bottom <==> w == "bottom"@ || w == "down"@,
{
    lemma_argument_words();
}

/// The sandbox is switched on and off by name, and over without one; nothing else is
/// understood.
pub proof fn sandbox_is_switched(w: Seq<char>)
    ensures
        sandbox_request(w) == Some(Some(true)) <==> w == "on"@,
        sandbox_request(w) == Some(Some(false)) <==> w == "off"@,
        sandbox_request(w) == Some(None::<bool>) <==> w.len() == 0,
{
    lemma_argument_words();
    if w.len() == 0 {
        assert(w =~= ""@);
    }
}

/// A copy is markdown unless plain or rich text is named.
pub proof fn forms_are_named(w: Seq<char>)
    ensures
        copy_format(w) == Some(CopyFormat::Markdown) <==> w.len() == 0 || w == "markdown"@,
        copy_format(w) == Some(CopyFormat::Plain) <==> w == "plain"@ || w == "plaintext"@,
        copy_format(w) == Some(CopyFormat::Rich) <==> w == "rich"@ || w == "richtext"@,
{
    lemma_argument_words();
    if w.len() == 0 {
        assert(w =~= ""@);
    }
}

/// The mode of the model is set by name, and switched over without one.
pub proof fn modes_are_named(w: Seq<char>)
    ensures
        llm_request(w) == Some(Some(LlmMode::Defensive)) <==> w == "defend"@ || w == "defensive"@,
        llm_request(w) == Some(Some(LlmMode::Normal)) <==> w == "normal"@,
        llm_request(w) == Some(None::<LlmMode>) <==> w.len() == 0 || w == "toggle"@,
        LlmMode::Normal.other() is Defensive,
        LlmMode::Defensive.other() is Normal,
        LlmMode::Normal.name() == "normal"@,
        LlmMode::Defensive.name() == "defensive"@,
{
    lemma_argument_words();
    if w.len() == 0 {
        assert(w =~= ""@);
    }
}

/// The machine is kept awake as named, and the switch is turned over without a name.
pub proof fn wakefulness_is_named(w: Seq<char>)
    ensures
        caffeinate_mode(w) == Some(CaffeinateMode::On) <==> w == "on"@,
        caffeinate_mode(w) == Some(CaffeinateMode::Off) <==> w == "off"@,
        caffeinate_mode(w) == Some(CaffeinateMode::UntilIdle) <==> w == "until-idle"@,
        caffeinate_mode(w) == Some(CaffeinateMode::Toggle) <==> w.len() == 0 || w == "toggle"@,
{
    lemma_argument_words();
    if w.len() == 0 {
        assert(w =~= ""@);
    }
}

} // verus!
