//! Update collector: filters fetched channel messages down to the ones that
//! qualify as status updates for the current run.
//!
//! A message qualifies when it lies strictly after the channel's watermark,
//! its timestamp falls inside the compliance window, and its lowercased
//! content satisfies the textual policy: either both required substrings are
//! present, or the message's author is the privileged one and the always
//! required substring is present.

use vstd::prelude::*;

use crate::text::{contains_seq, contains_str, lower_of, lowercase};
use crate::time::ComplianceWindow;

verus! {

/// A chat message, reduced to the data the collector reads: a monotonically
/// increasing identifier, the author's identity, the text, and the send time
/// (local wall-clock seconds, like every instant in this crate).
#[derive(Debug)]
pub struct ChatMessage {
    pub id: u64,
    pub author_id: String,
    pub author_name: String,
    pub content: String,
    pub timestamp: u64,
}

/// The spec-level image of a [`ChatMessage`].
#[verifier::ext_equal]
pub ghost struct MessageModel {
    pub id: u64,
    pub author_id: Seq<char>,
    pub author_name: Seq<char>,
    pub content: Seq<char>,
    pub timestamp: u64,
}

impl View for ChatMessage {
    type V = MessageModel;

    open spec fn view(&self) -> MessageModel {
        MessageModel {
            id: self.id,
            author_id: self.author_id@,
            author_name: self.author_name@,
            content: self.content@,
            timestamp: self.timestamp,
        }
    }
}

impl DeepView for ChatMessage {
    type V = MessageModel;

    open spec fn deep_view(&self) -> MessageModel {
        self.view()
    }
}

/// The spec-level image of a sequence of messages.
pub open spec fn messages_model(s: Seq<ChatMessage>) -> Seq<MessageModel> {
    s.map_values(|m: ChatMessage| m@)
}

/// The textual policy a status update must satisfy: `required_a` and
/// `required_b` must both occur in the lowercased content, except that the
/// privileged author may omit `required_a`.
#[derive(Debug)]
pub struct UpdatePolicy {
    pub required_a: String,
    pub required_b: String,
    pub privileged_author: String,
}

/// The spec-level image of an [`UpdatePolicy`].
#[verifier::ext_equal]
pub ghost struct PolicyModel {
    pub required_a: Seq<char>,
    pub required_b: Seq<char>,
    pub privileged_author: Seq<char>,
}

impl View for UpdatePolicy {
    type V = PolicyModel;

    open spec fn view(&self) -> PolicyModel {
        PolicyModel {
            required_a: self.required_a@,
            required_b: self.required_b@,
            privileged_author: self.privileged_author@,
        }
    }
}

/// The message identifier lies strictly after the watermark; with no
/// watermark every identifier passes.
pub open spec fn after_watermark(id: u64, watermark: Option<u64>) -> bool {
    match watermark {
        None => true,
        Some(w) => id > w,
    }
}

/// The instant lies inside the half-open compliance window.
pub open spec fn in_window(ts: u64, w: ComplianceWindow) -> bool {
    w.start <= ts < w.end
}

/// The lowercased content satisfies the textual policy for this author.
pub open spec fn content_matches(lc: Seq<char>, author_name: Seq<char>, p: PolicyModel) -> bool {
    ||| (contains_seq(lc, p.required_a) && contains_seq(lc, p.required_b))
    ||| (contains_seq(lc, p.required_b) && author_name == p.privileged_author)
}

/// The message counts as a status update for this run.
pub open spec fn spec_qualifies(
    m: MessageModel,
    watermark: Option<u64>,
    w: ComplianceWindow,
    p: PolicyModel,
) -> bool {
    &&& after_watermark(m.id, watermark)
    &&& in_window(m.timestamp, w)
    &&& content_matches(lower_of(m.content), m.author_name, p)
}

/// Exactly the qualifying messages of `ms`, kept in order.
pub open spec fn qualifying_of(
    ms: Seq<MessageModel>,
    watermark: Option<u64>,
    w: ComplianceWindow,
    p: PolicyModel,
) -> Seq<MessageModel> {
    ms.filter(|m: MessageModel| spec_qualifies(m, watermark, w, p))
}

/// An explicit copy of a message, equal to the original in the model.
pub fn clone_message(m: &ChatMessage) -> (r: ChatMessage)
    ensures
        r@ == m@,
{
    let r = ChatMessage {
        id: m.id,
        author_id: m.author_id.clone(),
        author_name: m.author_name.clone(),
        content: m.content.clone(),
        timestamp: m.timestamp,
    };
    proof {
        assert(r@ =~= m@);
    }
    r
}

/// Does this message qualify for the current run?
pub fn message_qualifies(
    m: &ChatMessage,
    watermark: Option<u64>,
    w: &ComplianceWindow,
    p: &UpdatePolicy,
) -> (r: bool)
    ensures
        r == spec_qualifies(m@, watermark, *w, p@),
{
    let after = match watermark {
        None => true,
        Some(wm) => m.id > wm,
    };
    if !after {
        return false;
    }
    if !(w.start <= m.timestamp && m.timestamp < w.end) {
        return false;
    }
    let lc = lowercase(m.content.as_str());
    let has_b = contains_str(lc.as_str(), p.required_b.as_str());
    if !has_b {
        return false;
    }
    if contains_str(lc.as_str(), p.required_a.as_str()) {
        return true;
    }
    m.author_name == p.privileged_author
}

/// Appending a message to the input either appends it to the qualifying
/// output or leaves the output unchanged, by whether it qualifies.
proof fn lemma_qualifying_push(
    s: Seq<MessageModel>,
    m: MessageModel,
    watermark: Option<u64>,
    w: ComplianceWindow,
    p: PolicyModel,
)
    ensures
        qualifying_of(s.push(m), watermark, w, p) == (if spec_qualifies(m, watermark, w, p) {
            qualifying_of(s, watermark, w, p).push(m)
        } else {
            qualifying_of(s, watermark, w, p)
        }),
{
    reveal(Seq::filter);
    assert(s.push(m).drop_last() =~= s);
}

/// The qualifying messages of one channel, in order: exactly those strictly
/// after the watermark, inside the window, and matching the content policy.
pub fn collect_qualifying(
    msgs: &Vec<ChatMessage>,
    watermark: Option<u64>,
    w: &ComplianceWindow,
    p: &UpdatePolicy,
) -> (r: Vec<ChatMessage>)
    ensures
        messages_model(r@) == qualifying_of(messages_model(msgs@), watermark, *w, p@),
{
    let ghost ms = messages_model(msgs@);
    let mut r: Vec<ChatMessage> = Vec::new();
    let mut k: usize = 0;
    while k < msgs.len()
        invariant
            k <= msgs@.len(),
            ms == messages_model(msgs@),
            messages_model(r@) == qualifying_of(ms.take(k as int), watermark, *w, p@),
        decreases msgs@.len() - k,
    {
        let qualifies_now = message_qualifies(&msgs[k], watermark, w, p);
        proof {
            assert(ms.take(k + 1) =~= ms.take(k as int).push(msgs@[k as int]@));
            lemma_qualifying_push(ms.take(k as int), msgs@[k as int]@, watermark, *w, p@);
        }
        if qualifies_now {
            let ghost old_r = r@;
            r.push(clone_message(&msgs[k]));
            proof {
                assert(messages_model(r@) =~= messages_model(old_r).push(msgs@[k as int]@));
            }
        }
        k += 1;
    }
    proof {
        assert(ms.take(msgs@.len() as int) =~= ms);
    }
    r
}

/// The qualifying messages of a run: each channel's messages filtered against
/// that channel's watermark, flattened in channel order.
pub open spec fn spec_collect_updates(
    channels: Seq<Seq<MessageModel>>,
    watermarks: Seq<Option<u64>>,
    w: ComplianceWindow,
    p: PolicyModel,
) -> Seq<MessageModel>
    decreases channels.len(),
{
    if channels.len() == 0 {
        Seq::empty()
    } else {
        qualifying_of(channels[0], watermarks[0], w, p) + spec_collect_updates(
            channels.drop_first(),
            watermarks.drop_first(),
            w,
            p,
        )
    }
}

/// Collect the qualifying messages across all monitored channels, given the
/// per-channel fetched history and the per-channel watermarks.
pub fn collect_updates(
    channels: &Vec<Vec<ChatMessage>>,
    watermarks: &Vec<Option<u64>>,
    w: &ComplianceWindow,
    p: &UpdatePolicy,
) -> (r: Vec<ChatMessage>)
    requires
        channels@.len() == watermarks@.len(),
    ensures
        messages_model(r@) == spec_collect_updates(channels.deep_view(), watermarks@, *w, p@),
{
    let ghost cs = channels.deep_view();
    let mut r: Vec<ChatMessage> = Vec::new();
    let mut i: usize = 0;
    proof {
        assert(cs.skip(0) =~= cs);
        assert(watermarks@.skip(0) =~= watermarks@);
        assert(messages_model(r@) + spec_collect_updates(cs, watermarks@, *w, p@)
            =~= spec_collect_updates(cs, watermarks@, *w, p@));
    }
    while i < channels.len()
        invariant
            i <= channels@.len(),
            channels@.len() == watermarks@.len(),
            cs == channels.deep_view(),
            messages_model(r@) + spec_collect_updates(cs.skip(i as int), watermarks@.skip(i as int), *w, p@)
                == spec_collect_updates(cs, watermarks@, *w, p@),
        decreases channels@.len() - i,
    {
        let ghost before = messages_model(r@);
        let mut part = collect_qualifying(&channels[i], watermarks[i], w, p);
        proof {
            assert(cs.skip(i as int)[0] == cs[i as int]);
            assert(cs[i as int] =~= messages_model(channels@[i as int]@));
            assert(cs.skip(i as int).drop_first() =~= cs.skip(i + 1));
            assert(watermarks@.skip(i as int).drop_first() =~= watermarks@.skip(i + 1));
            assert(watermarks@.skip(i as int)[0] == watermarks@[i as int]);
        }
        r.append(&mut part);
        proof {
            assert(messages_model(r@) =~= before + qualifying_of(
                cs[i as int],
                watermarks@[i as int],
                *w,
                p@,
            ));
            assert(messages_model(r@) + spec_collect_updates(
                cs.skip(i + 1),
                watermarks@.skip(i + 1),
                *w,
                p@,
            ) =~= spec_collect_updates(cs, watermarks@, *w, p@));
        }
        i += 1;
    }
    proof {
        assert(cs.skip(channels@.len() as int) =~= Seq::<Seq<MessageModel>>::empty());
        assert(messages_model(r@) =~= spec_collect_updates(cs, watermarks@, *w, p@));
    }
    r
}

/// The author identities of the given messages, one per message, in order.
pub fn message_authors(msgs: &Vec<ChatMessage>) -> (r: Vec<String>)
    ensures
        r@.len() == msgs@.len(),
        forall|i: int| 0 <= i < msgs@.len() ==> r@[i]@ == msgs@[i]@.author_id,
{
    let mut r: Vec<String> = Vec::new();
    let mut k: usize = 0;
    while k < msgs.len()
        invariant
            k <= msgs@.len(),
            r@.len() == k,
            forall|i: int| 0 <= i < k ==> r@[i]@ == msgs@[i]@.author_id,
        decreases msgs@.len() - k,
    {
        r.push(msgs[k].author_id.clone());
        k += 1;
    }
    r
}

/// Stretch or trim a loaded watermark list to the number of monitored
/// channels; a channel without a stored watermark degrades to none.
pub fn align_watermarks(watermarks: &Vec<Option<u64>>, n: usize) -> (r: Vec<Option<u64>>)
    ensures
        r@.len() == n,
        forall|i: int|
            0 <= i < n ==> r@[i] == (if i < watermarks@.len() {
                watermarks@[i]
            } else {
                None::<u64>
            }),
{
    let mut r: Vec<Option<u64>> = Vec::new();
    let mut k: usize = 0;
    while k < n
        invariant
            k <= n,
            r@.len() == k,
            forall|i: int|
                0 <= i < k ==> r@[i] == (if i < watermarks@.len() {
                    watermarks@[i]
                } else {
                    None::<u64>
                }),
        decreases n - k,
    {
        if k < watermarks.len() {
            r.push(watermarks[k]);
        } else {
            r.push(None);
        }
        k += 1;
    }
    r
}

} // verus!
