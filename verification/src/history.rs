//! The context window manager: an ordered, append-only message history
//! that can hand out a token-budgeted view of its newest messages.

use vstd::prelude::*;
use vstd::string::StrSliceExecFns;

use crate::types::Message;
use crate::types::MessageView;
use crate::types::messages_view;

verus! {

// ---------------------------------------------------------------------------
// Token estimation
// ---------------------------------------------------------------------------

/// ASCII whitespace: what the token estimator splits words on and what
/// frame trimming strips. An approximation of Unicode whitespace.
pub open spec fn is_ascii_ws(c: char) -> bool {
    c == ' ' || c == '\t' || c == '\n' || c == '\r'
}

/// Number of words of a text: positions where a non-separator follows a
/// separator or starts the text.
pub open spec fn word_count(s: Seq<char>) -> nat
    decreases s.len(),
{
    if s.len() == 0 {
        0
    } else {
        word_count(s.drop_last()) + if !is_ascii_ws(s.last()) && (s.len() == 1 || is_ascii_ws(
            s[s.len() - 2],
        )) {
            1nat
        } else {
            0nat
        }
    }
}

/// The text carried by a message, whatever its role.
pub open spec fn view_content(m: MessageView) -> Seq<char> {
    match m {
        MessageView::Developer { content } => content,
        MessageView::System { content } => content,
        MessageView::User { content } => content,
        MessageView::Assistant { content, .. } => content,
        MessageView::Tool { content, .. } => content,
    }
}

/// Estimated token cost of one message: thirteen tenths of its word count,
/// rounded down.
pub open spec fn message_tokens(m: MessageView) -> nat {
    word_count(view_content(m)) * 13 / 10
}

/// Estimated token cost of a list of messages.
pub open spec fn total_tokens(s: Seq<MessageView>) -> nat
    decreases s.len(),
{
    if s.len() == 0 {
        0
    } else {
        message_tokens(s.first()) + total_tokens(s.drop_first())
    }
}

/// What a context view must be: the longest suffix of the history whose
/// estimated cost fits the budget, in insertion order; the whole history
/// when there is no budget.
pub open spec fn context_ok(
    h: Seq<MessageView>,
    max_tokens: Option<usize>,
    c: Seq<MessageView>,
) -> bool {
    &&& c.len() <= h.len()
    &&& c == h.skip(h.len() - c.len())
    &&& (max_tokens is None ==> c.len() == h.len())
    &&& (max_tokens matches Some(max) ==> total_tokens(c) <= max as nat)
    &&& (max_tokens matches Some(max) ==> (c.len() < h.len() ==> total_tokens(
        h.skip(h.len() - c.len() - 1),
    ) > max as nat))
}

/// Law: an unbudgeted context view is the whole history — after any
/// number of additions, exactly those messages come back, in insertion
/// order.
pub proof fn lemma_full_view_round_trip(h: Seq<MessageView>, c: Seq<MessageView>)
    requires
        context_ok(h, None, c),
    ensures
        c == h,
{
    assert(h.skip(0) =~= h);
}

/// Law: a budgeted context view stays within its budget, is a suffix of
/// the history — the newest messages, in insertion order — and is never
/// longer than the history it was trimmed from; the history itself is a
/// value the trimming cannot touch.
pub proof fn lemma_budgeted_view_within(h: Seq<MessageView>, max: usize, c: Seq<MessageView>)
    requires
        context_ok(h, Some(max), c),
    ensures
        total_tokens(c) <= max as nat,
        c.len() <= h.len(),
        c == h.skip(h.len() - c.len()),
{
}

/// Counts the words of a text, splitting on ASCII whitespace.
fn count_words(s: &str) -> (n: usize)
    ensures
        n as nat == word_count(s@),
{
    let len = s.unicode_len();
    let mut i: usize = 0;
    let mut n: usize = 0;
    let mut prev_sep: bool = true;
    while i < len
        invariant
            i <= len,
            len == s@.len(),
            n <= i,
            n as nat == word_count(s@.take(i as int)),
            prev_sep == (i == 0 || is_ascii_ws(s@[i as int - 1])),
        decreases len - i,
    {
        let c = s.get_char(i);
        let sep = c == ' ' || c == '\t' || c == '\n' || c == '\r';
        proof {
            let t = s@.take(i as int + 1);
            assert(t.drop_last() =~= s@.take(i as int));
            assert(t.last() == s@[i as int]);
        }
        if !sep && prev_sep {
            n = n + 1;
        }
        prev_sep = sep;
        i = i + 1;
    }
    proof {
        assert(s@.take(len as int) =~= s@);
    }
    n
}

/// Estimated token cost of one message, as the estimator's spec gives it.
/// Computed in 128 bits so that no word count can overflow it.
fn message_token_cost(m: &Message) -> (t: u128)
    ensures
        t as nat == message_tokens(m@),
        t <= (usize::MAX as u128) * 13 / 10,
{
    let content: &str = match m {
        Message::Developer { content } => content.as_str(),
        Message::System { content } => content.as_str(),
        Message::User { content } => content.as_str(),
        Message::Assistant { content, .. } => content.as_str(),
        Message::Tool { content, .. } => content.as_str(),
    };
    let words = count_words(content);
    let t = (words as u128) * 13 / 10;
    proof {
        assert((words as u128) * 13 <= (usize::MAX as u128) * 13) by (nonlinear_arith)
            requires
                words as u128 <= usize::MAX as u128,
        ;
    }
    t
}

// ---------------------------------------------------------------------------
// History
// ---------------------------------------------------------------------------

/// The ordered conversation history. Messages are appended and never
/// dropped; a token budget only trims what a view hands out.
#[derive(Debug)]
pub struct History {
    messages: Vec<Message>,
}

impl View for History {
    type V = Seq<MessageView>;

    closed spec fn view(&self) -> Seq<MessageView> {
        messages_view(self.messages@)
    }
}

impl History {
    /// An empty history.
    pub fn new() -> (h: History)
        ensures
            h@ == Seq::<MessageView>::empty(),
    {
        let h = History { messages: Vec::new() };
        proof {
            assert(h@ =~= Seq::<MessageView>::empty());
        }
        h
    }

    /// Number of messages held.
    pub fn len(&self) -> (n: usize)
        ensures
            n == self@.len(),
    {
        self.messages.len()
    }

    /// Appends one message. The history preserves insertion order and
    /// never drops an entry.
    pub fn add_message(&mut self, message: Message)
        ensures
            final(self)@ == old(self)@.push(message@),
    {
        let ghost before = self.messages@;
        self.messages.push(message);
        proof {
            assert(messages_view(self.messages@) =~= messages_view(before).push(
                self.messages@.last()@,
            ));
        }
    }

    /// The messages to hand to the provider for one round.
    ///
    /// Without a budget the whole history is returned in insertion order.
    /// With a budget the longest suffix whose estimated cost stays within
    /// it is returned, still in insertion order; if even the newest
    /// message alone exceeds the budget, the view is empty. The underlying
    /// history is left untouched either way.
    pub fn get_context_messages(&self, max_tokens: Option<usize>) -> (r: Vec<Message>)
        ensures
            context_ok(self@, max_tokens, messages_view(r@)),
    {
        let len = self.messages.len();
        let mut start: usize = match max_tokens {
            None => 0,
            Some(max) => {
                let budget = max as u128;
                let mut k: usize = len;
                let mut total: u128 = 0;
                let mut stopped: bool = false;
                while k > 0 && !stopped
                    invariant
                        k <= len,
                        len == self@.len(),
                        total as nat == total_tokens(self@.skip(k as int)),
                        total <= budget,
                        budget == max as u128,
                        stopped ==> k > 0 && total_tokens(self@.skip(k as int - 1)) > max as nat,
                    decreases (k as int) + (if stopped { 0int } else { 1int }),
                {
                    let cost = message_token_cost(&self.messages[k - 1]);
                    proof {
                        assert(self@.skip(k as int - 1).first() == self.messages@[k as int - 1]@);
                        assert(self@.skip(k as int - 1).drop_first() =~= self@.skip(k as int));
                    }
                    if total + cost > budget {
                        stopped = true;
                    } else {
                        total = total + cost;
                        k = k - 1;
                    }
                }
                k
            },
        };
        let mut out: Vec<Message> = Vec::new();
        let mut j: usize = start;
        while j < len
            invariant
                start <= j <= len,
                len == self.messages@.len(),
                out@.len() == j - start,
                forall|i: int|
                    0 <= i < out@.len() ==> #[trigger] out@[i]@ == self.messages@[start as int
                        + i]@,
            decreases len - j,
        {
            out.push(self.messages[j].clone());
            j = j + 1;
        }
        proof {
            let lhs = messages_view(out@);
            let rhs = self@.skip(start as int);
            assert forall|i: int| 0 <= i < lhs.len() implies lhs[i] == rhs[i] by {
                assert(lhs[i] == out@[i]@);
                assert(rhs[i] == messages_view(self.messages@)[start as int + i]);
                assert(messages_view(self.messages@)[start as int + i] == self.messages@[start
                    as int + i]@);
            }
            assert(lhs =~= rhs);
        }
        out
    }
}

} // verus!
