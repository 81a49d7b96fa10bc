//! Splitting streamed text into what is shown and what is reasoning: text
//! between `<think>` and `</think>` is reasoning.

use vstd::prelude::*;
use crate::text::{begins_with, from_chars, stands_at, to_chars};

verus! {

/// The tag that is awaited next.
pub open spec fn awaited_tag(inside: bool) -> Seq<char> {
    if inside {
        "</think>"@
    } else {
        "<think>"@
    }
}

/// A stream in the making: shown text, reasoning, whether reasoning is open,
/// the beginning of a tag that is not complete yet, and whether shown text was
/// written.
#[verifier::ext_equal]
pub struct StreamView {
    pub text: Seq<char>,
    pub reasoning: Seq<char>,
    pub inside: bool,
    pub partial: Seq<char>,
    pub wrote: bool,
}

impl StreamView {
    /// `t` written to where the stream stands.
    pub open spec fn written(self, t: Seq<char>) -> StreamView {
        if t.len() == 0 {
            self
        } else if self.inside {
            StreamView { reasoning: self.reasoning + t, ..self }
        } else {
            StreamView { text: self.text + t, wrote: true, ..self }
        }
    }

    /// The held back beginning of a tag written out.
    pub open spec fn flushed(self) -> StreamView {
        StreamView { partial: Seq::empty(), ..self.written(self.partial) }
    }

    /// Whether `t` is the beginning of the awaited tag.
    pub open spec fn starts_tag(self, t: Seq<char>) -> bool {
        begins_with(awaited_tag(self.inside), t)
    }

    /// One more character: it continues a tag, begins one, or is written.
    pub open spec fn with_char(self, c: char) -> StreamView {
        let held = self.partial.push(c);
        if self.starts_tag(held) {
            if held.len() == awaited_tag(self.inside).len() {
                StreamView { partial: Seq::empty(), inside: !self.inside, ..self }
            } else {
                StreamView { partial: held, ..self }
            }
        } else {
            let f = self.flushed();
            if f.starts_tag(seq![c]) {
                StreamView { partial: seq![c], ..f }
            } else {
                f.written(seq![c])
            }
        }
    }
}

/// The stream after the characters of `delta`.
pub open spec fn routed(s: StreamView, delta: Seq<char>) -> StreamView
    decreases delta.len(),
{
    if delta.len() == 0 {
        s
    } else {
        routed(s, delta.drop_last()).with_char(delta.last())
    }
}

/// Cutting a stream into pieces in another way changes nothing.
pub proof fn routing_is_incremental(s: StreamView, a: Seq<char>, b: Seq<char>)
    ensures
        routed(routed(s, a), b) == routed(s, a + b),
    decreases b.len(),
{
    if b.len() == 0 {
        assert(a + b =~= a);
    } else {
        routing_is_incremental(s, a, b.drop_last());
        assert((a + b).drop_last() =~= a + b.drop_last());
        assert((a + b).last() == b.last());
    }
}

fn tag_chars(inside: bool) -> (r: Vec<char>)
    ensures
        r@ == awaited_tag(inside),
{
    if inside {
        to_chars("</think>")
    } else {
        to_chars("<think>")
    }
}

fn write_chars(chars: &Vec<char>, inside: bool, text: &mut String, reasoning: &mut String)
    ensures
        final(text)@ == if inside {
            old(text)@
        } else {
            old(text)@ + chars@
        },
        final(reasoning)@ == if inside {
            old(reasoning)@ + chars@
        } else {
            old(reasoning)@
        },
{
    let s: String = from_chars(chars);
    if inside {
        reasoning.append(s.as_str());
    } else {
        text.append(s.as_str());
    }
}

/// Route a piece of streamed text. Returns whether shown text was written.
pub fn route_text_delta(
    delta: &str,
    text: &mut String,
    reasoning: &mut String,
    inside_think: &mut bool,
    tag_partial: &mut String,
) -> (r: bool)
    ensures
        (StreamView {
            text: final(text)@,
            reasoning: final(reasoning)@,
            inside: *final(inside_think),
            partial: final(tag_partial)@,
            wrote: r,
        }) == routed(
            (StreamView {
                text: old(text)@,
                reasoning: old(reasoning)@,
                inside: *old(inside_think),
                partial: old(tag_partial)@,
                wrote: false,
            }),
            delta@,
        ),
{
    let v: Vec<char> = to_chars(delta);
    let ghost start = StreamView {
        text: text@,
        reasoning: reasoning@,
        inside: *inside_think,
        partial: tag_partial@,
        wrote: false,
    };
    let mut partial: Vec<char> = to_chars(tag_partial.as_str());
    let mut inside: bool = *inside_think;
    let mut wrote: bool = false;
    let mut i: usize = 0;
    proof {
        assert(v@.take(0) =~= Seq::empty());
    }
    while i < v.len()
        invariant
            i <= v@.len(),
            (StreamView { text: text@, reasoning: reasoning@, inside, partial: partial@, wrote })
                == routed(start, v@.take(i as int)),
        decreases v@.len() - i,
    {
        let c: char = v[i];
        let ghost before = StreamView {
            text: text@,
            reasoning: reasoning@,
            inside,
            partial: partial@,
            wrote,
        };
        proof {
            assert(v@.take(i + 1).drop_last() =~= v@.take(i as int));
            assert(v@.take(i + 1).last() == c);
        }
        let tag: Vec<char> = tag_chars(inside);
        let ghost held = partial@.push(c);
        partial.push(c);
        if stands_at(&tag, &partial, 0) {
            if partial.len() == tag.len() {
                partial = Vec::new();
                inside = !inside;
                proof {
                    assert(partial@ =~= Seq::empty());
                }
            }
        } else {
            let _last: Option<char> = partial.pop();
            proof {
                assert(partial@ =~= before.partial);
            }
            if partial.len() > 0 {
                write_chars(&partial, inside, text, reasoning);
                if !inside {
                    wrote = true;
                }
            }
            partial = Vec::new();
            let ghost f = StreamView {
                text: text@,
                reasoning: reasoning@,
                inside,
                partial: partial@,
                wrote,
            };
            proof {
                assert(f =~= before.flushed());
            }
            partial.push(c);
            proof {
                assert(partial@ =~= seq![c]);
            }
            if !stands_at(&tag, &partial, 0) {
                write_chars(&partial, inside, text, reasoning);
                if !inside {
                    wrote = true;
                }
                partial = Vec::new();
                proof {
                    assert(partial@ =~= Seq::empty());
                }
            }
        }
        proof {
            let after = StreamView {
                text: text@,
                reasoning: reasoning@,
                inside,
                partial: partial@,
                wrote,
            };
            assert(after =~= before.with_char(c));
        }
        i = i + 1;
    }
    proof {
        assert(v@.take(i as int) =~= v@);
    }
    *inside_think = inside;
    *tag_partial = from_chars(&partial);
    wrote
}

} // verus!
