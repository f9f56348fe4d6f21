//! The rewind layer: a pushback buffer over a token source.
//!
//! `BufferedLayer` pairs an underlying source with a LIFO buffer of
//! items handed back by `rewind`.  `next` replays the most recently
//! rewound item before consuming the source again, which gives the
//! parser its lookahead.  Rewound items replay in last-in, first-out
//! order, and a rewound item comes back before anything the underlying
//! source still holds: that is exactly what the contracts of `rewind`
//! and `next` state over `remaining()`.

use vstd::prelude::*;

use crate::lexer::{lex_out_view, lemma_lex_step_progress, spec_lex_step, spec_tokens, LexError, Lexer};
use crate::token::{SpToken, Token};

verus! {

/// A pushback buffer over an underlying iterator: items rewound into
/// `buffer` replay LIFO before `iter` is consumed again.
pub struct BufferedLayer<I, T> {
    iter: I,
    buffer: Vec<T>,
}

/// View of a token pushback buffer: the items that replay, in replay
/// order.
pub open spec fn spec_buffer_view(b: Seq<Token>) -> Seq<Result<SpToken, LexError>> {
    b.reverse().map(|i: int, t: Token| Ok(t@))
}

impl BufferedLayer<Lexer, Token> {
    /// The tokens and errors still to come: rewound tokens first, then
    /// whatever the lexer has left.
    pub closed spec fn remaining(&self) -> Seq<Result<SpToken, LexError>> {
        spec_buffer_view(self.buffer@) + spec_tokens(self.iter.rem(), self.iter.pos())
    }

    /// The underlying lexer is well formed.
    pub closed spec fn wf(&self) -> bool {
        self.iter.wf()
    }

    /// A layer over `iter` with nothing rewound yet.
    pub fn new(iter: Lexer) -> (l: Self)
        requires
            iter.wf(),
        ensures
            l.wf(),
            l.remaining() == spec_tokens(iter.rem(), iter.pos()),
    {
        let l = BufferedLayer { iter, buffer: Vec::new() };
        proof {
            assert(l.buffer@.reverse() =~= Seq::<Token>::empty());
            assert(spec_buffer_view(l.buffer@) =~= Seq::<Result<SpToken, LexError>>::empty());
            assert(l.remaining() =~= spec_tokens(l.iter.rem(), l.iter.pos()));
        }
        l
    }

    /// Hand back the head of `remaining()`: the most recently rewound
    /// token if there is one, else the lexer's next output.
    pub fn next(&mut self) -> (r: Option<Result<Token, LexError>>)
        requires
            old(self).wf(),
        ensures
            final(self).wf(),
            old(self).remaining().len() == 0 ==> r is None && final(self).remaining()
                == old(self).remaining(),
            old(self).remaining().len() > 0 ==> lex_out_view(r) == Some(old(self).remaining()[0])
                && final(self).remaining() == old(self).remaining().drop_first(),
    {
        let popped = self.buffer.pop();
        match popped {
            Some(t) => {
                proof {
                    let ob = old(self).buffer@;
                    let nb = self.buffer@;
                    assert(nb =~= ob.drop_last());
                    assert(ob.reverse()[0] == ob.last());
                    assert(nb.reverse() =~= ob.reverse().drop_first());
                    assert(spec_buffer_view(nb) =~= spec_buffer_view(ob).drop_first());
                    assert(spec_buffer_view(ob).len() > 0);
                    assert(old(self).remaining()[0] == spec_buffer_view(ob)[0]);
                    assert(spec_buffer_view(ob)[0] == Ok::<SpToken, LexError>(ob.last()@));
                    assert(final(self).remaining() =~= old(self).remaining().drop_first());
                }
                Some(Ok(t))
            },
            None => {
                proof {
                    assert(old(self).buffer@.reverse() =~= Seq::<Token>::empty());
                    assert(spec_buffer_view(old(self).buffer@) =~= Seq::<
                        Result<SpToken, LexError>,
                    >::empty());
                    assert(old(self).remaining() =~= spec_tokens(
                        old(self).iter.rem(),
                        old(self).iter.pos(),
                    ));
                    lemma_lex_step_progress(old(self).iter.rem(), old(self).iter.pos());
                }
                let ghost pre = self.iter;
                let r = self.iter.next();
                proof {
                    let step = spec_lex_step(pre.rem(), pre.pos());
                    assert(spec_buffer_view(self.buffer@) =~= Seq::<
                        Result<SpToken, LexError>,
                    >::empty());
                    assert(final(self).remaining() =~= spec_tokens(self.iter.rem(), self.iter.pos()));
                    match step.out {
                        None => {
                            assert(spec_tokens(pre.rem(), pre.pos()) =~= Seq::<
                                Result<SpToken, LexError>,
                            >::empty());
                        },
                        Some(t0) => {
                            assert(spec_tokens(pre.rem(), pre.pos()) == seq![t0] + spec_tokens(
                                step.rest,
                                step.pos,
                            ));
                            assert((seq![t0] + spec_tokens(step.rest, step.pos))[0] == t0);
                            assert((seq![t0] + spec_tokens(step.rest, step.pos)).drop_first()
                                =~= spec_tokens(step.rest, step.pos));
                        },
                    }
                }
                r
            },
        }
    }

    /// Push `item` back: it becomes the head of `remaining()` and the
    /// next call of `next` returns it before anything older.
    pub fn rewind(&mut self, item: Token)
        requires
            old(self).wf(),
        ensures
            final(self).wf(),
            final(self).remaining() == seq![Ok::<SpToken, LexError>(item@)] + old(self).remaining(),
    {
        proof {
            let ob = old(self).buffer@;
            assert(ob.push(item).reverse() =~= seq![item] + ob.reverse());
            assert(spec_buffer_view(ob.push(item)) =~= seq![Ok::<SpToken, LexError>(item@)]
                + spec_buffer_view(ob));
        }
        self.buffer.push(item);
        proof {
            assert(final(self).remaining() =~= seq![Ok::<SpToken, LexError>(item@)] + old(
                self,
            ).remaining());
        }
    }
}

} // verus!
