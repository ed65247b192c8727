//! Internal messages: the row a send writes, who it reaches, the batches its
//! recipient rows are written in and the rows themselves, the inbox backfill of titles and
//! contents, and the recipient status a bulk mark writes.

use vstd::prelude::*;
use crate::message_codes::{message_type_name, message_type_to_str};

verus! {

/// The size of one recipient batch.
pub const RECIPIENT_BATCH: usize = 1000;

/// Who a message reaches.
pub enum Recipients {
    /// The listed users.
    Listed(Vec<u32>),
    /// Every user of the sender's tenant.
    WholeTenant,
    /// Nobody.
    Nobody,
}

/// Who a message reaches: the explicit target list when it is not empty,
/// else the single recipient when given, else the whole tenant when asked
/// for, else nobody.
pub fn recipients_of(
    target_user_ids: &Vec<u32>,
    recipient_user_id: Option<u32>,
    target_all: Option<bool>,
) -> (r: Recipients)
    ensures
        target_user_ids@.len() > 0 ==> (r matches Recipients::Listed(v) && v@ == target_user_ids@),
        target_user_ids@.len() == 0 ==> match recipient_user_id {
            Some(uid) => (r matches Recipients::Listed(v) && v@ == seq![uid]),
            None => if target_all == Some(true) {
                r is WholeTenant
            } else {
                r is Nobody
            },
        },
{
    if target_user_ids.len() > 0 {
        Recipients::Listed(target_user_ids.clone())
    } else {
        match recipient_user_id {
            Some(uid) => {
                let mut v: Vec<u32> = Vec::new();
                v.push(uid);
                Recipients::Listed(v)
            },
            None => match target_all {
                Some(true) => Recipients::WholeTenant,
                _ => Recipients::Nobody,
            },
        }
    }
}

/// `s` cut into consecutive pieces of `n`, the last one possibly shorter.
pub open spec fn batches(s: Seq<u32>, n: nat) -> Seq<Seq<u32>>
    decreases s.len(),
{
    if n == 0 || s.len() == 0 {
        seq![]
    } else if s.len() <= n {
        seq![s]
    } else {
        seq![s.take(n as int)] + batches(s.skip(n as int), n)
    }
}

/// The pieces joined back together.
pub open spec fn joined(b: Seq<Seq<u32>>) -> Seq<u32>
    decreases b.len(),
{
    if b.len() == 0 {
        seq![]
    } else {
        joined(b.drop_last()) + b.last()
    }
}

proof fn lemma_joined_prepend(first: Seq<u32>, tail: Seq<Seq<u32>>)
    ensures
        joined(seq![first] + tail) == first + joined(tail),
    decreases tail.len(),
{
    let whole = seq![first] + tail;
    if tail.len() == 0 {
        assert(whole.drop_last() =~= Seq::<Seq<u32>>::empty());
        assert(joined(whole.drop_last()) == Seq::<u32>::empty());
        assert(joined(tail) == Seq::<u32>::empty());
        assert(joined(whole) =~= first + joined(tail));
    } else {
        lemma_joined_prepend(first, tail.drop_last());
        assert(whole.drop_last() =~= seq![first] + tail.drop_last());
        assert(whole.last() == tail.last());
        assert(joined(whole) =~= first + joined(tail));
    }
}

/// The batches, joined back, give the whole; none is empty or longer
/// than `n`.
pub proof fn lemma_batches(s: Seq<u32>, n: nat)
    requires
        n > 0,
    ensures
        joined(batches(s, n)) == s,
        forall|i: int|
            0 <= i < batches(s, n).len() ==> 0 < (#[trigger] batches(s, n)[i]).len() <= n,
    decreases s.len(),
{
    if s.len() == 0 {
        assert(joined(batches(s, n)) =~= s);
    } else if s.len() <= n {
        let b = batches(s, n);
        assert(b.drop_last() =~= Seq::<Seq<u32>>::empty());
        assert(joined(b.drop_last()) == Seq::<u32>::empty());
        assert(joined(b) =~= s);
    } else {
        let rest = s.skip(n as int);
        lemma_batches(rest, n);
        let b = batches(s, n);
        let tail = batches(rest, n);
        lemma_joined_prepend(s.take(n as int), tail);
        assert(b =~= seq![s.take(n as int)] + tail);
        assert(s.take(n as int) + rest =~= s);
        assert forall|i: int| 0 <= i < b.len() implies 0 < (#[trigger] b[i]).len() <= n by {
            if i > 0 {
                assert(b[i] == tail[i - 1]);
            }
        }
    }
}

/// The recipient ids in batches of `RECIPIENT_BATCH`, in order.
pub fn recipient_batches(ids: &Vec<u32>) -> (r: Vec<Vec<u32>>)
    ensures
        r@.len() == batches(ids@, RECIPIENT_BATCH as nat).len(),
        forall|i: int|
            0 <= i < r@.len() ==> #[trigger] r@[i]@ == batches(ids@, RECIPIENT_BATCH as nat)[i],
{
    let n: usize = RECIPIENT_BATCH;
    let ghost whole = batches(ids@, n as nat);
    let mut out: Vec<Vec<u32>> = Vec::new();
    let mut pos: usize = 0;
    assert(ids@.skip(0) =~= ids@);
    while pos < ids.len()
        invariant
            pos <= ids.len(),
            whole == batches(ids@, n as nat),
            n == RECIPIENT_BATCH,
            out@.len() + batches(ids@.skip(pos as int), n as nat).len() == whole.len(),
            forall|i: int| 0 <= i < out@.len() ==> #[trigger] out@[i]@ == whole[i],
            forall|i: int|
                0 <= i < batches(ids@.skip(pos as int), n as nat).len() ==> whole[out@.len() + i]
                    == #[trigger] batches(ids@.skip(pos as int), n as nat)[i],
        decreases ids.len() - pos,
    {
        let ghost rest = ids@.skip(pos as int);
        let end: usize = if ids.len() - pos <= n {
            ids.len()
        } else {
            pos + n
        };
        let mut b: Vec<u32> = Vec::new();
        let mut k: usize = pos;
        while k < end
            invariant
                pos <= k <= end <= ids.len(),
                b@ =~= ids@.subrange(pos as int, k as int),
            decreases end - k,
        {
            b.push(ids[k]);
            k += 1;
        }
        proof {
            let bs = batches(rest, n as nat);
            if rest.len() <= n {
                assert(b@ =~= rest);
                assert(ids@.skip(end as int) =~= Seq::<u32>::empty());
                assert(whole[out@.len() as int] == bs[0]);
            } else {
                assert(b@ =~= rest.take(n as int));
                assert(ids@.skip(end as int) =~= rest.skip(n as int));
                assert(bs =~= seq![rest.take(n as int)] + batches(rest.skip(n as int), n as nat));
                assert(whole[out@.len() as int] == bs[0]);
                assert forall|i: int|
                    0 <= i < batches(ids@.skip(end as int), n as nat).len() implies whole[out@.len()
                    + 1 + i] == #[trigger] batches(ids@.skip(end as int), n as nat)[i] by {
                    assert(bs[i + 1] == batches(rest.skip(n as int), n as nat)[i]);
                }
            }
        }
        out.push(b);
        pos = end;
    }
    out
}

/// A message row as a send writes it.
pub struct MessageRow {
    pub tenant_id: u32,
    pub title: Option<String>,
    pub content: String,
    pub sender_id: u32,
    pub category_id: Option<u32>,
    pub status: String,
    pub kind: String,
    pub created_by: u32,
}

/// The message row of a send: the sender's tenant, the title, content
/// and category as given, `PUBLISHED`, its type named from the request's
/// code (`PRIVATE` 1, `GROUP` 2, else `NOTIFICATION`), created by the
/// sender.
pub fn new_message_row(
    tenant_id: u32,
    sender_id: u32,
    title: &Option<String>,
    content: &str,
    category_id: Option<u32>,
    type_code: i32,
) -> (r: MessageRow)
    ensures
        r.tenant_id == tenant_id,
        crate::compare::opt_text(r.title) == crate::compare::opt_text(*title),
        r.content@ == content@,
        r.sender_id == sender_id,
        r.category_id == category_id,
        r.status@ == "PUBLISHED"@,
        r.kind@ == message_type_name(type_code),
        r.created_by == sender_id,
{
    MessageRow {
        tenant_id,
        title: match title {
            Some(t) => Some(t.clone()),
            None => None,
        },
        content: content.to_owned(),
        sender_id,
        category_id,
        status: "PUBLISHED".to_owned(),
        kind: message_type_to_str(type_code),
        created_by: sender_id,
    }
}

/// A recipient row as a send writes it.
pub struct RecipientRow {
    pub tenant_id: u32,
    pub message_id: u32,
    pub recipient_user_id: u32,
    pub status: String,
}

/// The rows a send writes for one batch of recipients: one per recipient,
/// in order, each already `RECEIVED` (a send never writes `SENT`).
pub fn recipient_rows(tenant_id: u32, message_id: u32, recipient_ids: &Vec<u32>) -> (r: Vec<
    RecipientRow,
>)
    ensures
        r.len() == recipient_ids.len(),
        forall|i: int|
            0 <= i < r.len() ==> {
                &&& (#[trigger] r[i]).tenant_id == tenant_id
                &&& r[i].message_id == message_id
                &&& r[i].recipient_user_id == recipient_ids[i]
                &&& r[i].status@ == "RECEIVED"@
            },
{
    let mut out: Vec<RecipientRow> = Vec::new();
    let mut i: usize = 0;
    while i < recipient_ids.len()
        invariant
            i <= recipient_ids.len(),
            out.len() == i,
            forall|j: int|
                0 <= j < i ==> {
                    &&& (#[trigger] out[j]).tenant_id == tenant_id
                    &&& out[j].message_id == message_id
                    &&& out[j].recipient_user_id == recipient_ids[j]
                    &&& out[j].status@ == "RECEIVED"@
                },
        decreases recipient_ids.len() - i,
    {
        out.push(
            RecipientRow {
                tenant_id,
                message_id,
                recipient_user_id: recipient_ids[i],
                status: "RECEIVED".to_owned(),
            },
        );
        i += 1;
    }
    out
}

/// The recipient status a bulk mark writes: 2 is `READ`, 4 `DELETED`,
/// anything else `RECEIVED`.
pub open spec fn marked_status_spec(v: i32) -> Seq<char> {
    if v == 2 {
        "READ"@
    } else if v == 4 {
        "DELETED"@
    } else {
        "RECEIVED"@
    }
}

/// The recipient status a bulk mark writes.
pub fn marked_status(v: i32) -> (r: String)
    ensures
        r@ == marked_status_spec(v),
{
    if v == 2 {
        "READ".to_owned()
    } else if v == 4 {
        "DELETED".to_owned()
    } else {
        "RECEIVED".to_owned()
    }
}

/// A message row as the inbox backfill reads it.
pub struct InboxMessage {
    pub id: u32,
    pub title: Option<String>,
    pub content: Option<String>,
}

/// The message ids an inbox page names, in order (rows without one
/// skipped).
pub open spec fn named_ids(rows: Seq<Option<u32>>) -> Seq<u32>
    decreases rows.len(),
{
    if rows.len() == 0 {
        seq![]
    } else {
        match rows.last() {
            Some(id) => named_ids(rows.drop_last()).push(id),
            None => named_ids(rows.drop_last()),
        }
    }
}

/// The message ids an inbox page names.
pub fn backfill_ids(rows: &Vec<Option<u32>>) -> (r: Vec<u32>)
    ensures
        r@ == named_ids(rows@),
{
    let mut out: Vec<u32> = Vec::new();
    let mut i: usize = 0;
    while i < rows.len()
        invariant
            i <= rows.len(),
            out@ == named_ids(rows@.take(i as int)),
        decreases rows.len() - i,
    {
        assert(rows@.take(i + 1).drop_last() =~= rows@.take(i as int));
        match rows[i] {
            Some(id) => out.push(id),
            None => {},
        }
        i += 1;
    }
    assert(rows@.take(rows.len() as int) =~= rows@);
    out
}

/// The index of the last of the first `n` messages with id `id`, or -1.
pub open spec fn last_message(m: Seq<InboxMessage>, n: int, id: u32) -> int
    decreases n,
{
    if n <= 0 {
        -1
    } else if m[n - 1].id == id {
        n - 1
    } else {
        last_message(m, n - 1, id)
    }
}

/// The view of an optional text.
pub open spec fn text_view(s: Option<String>) -> Option<Seq<char>> {
    match s {
        Some(t) => Some(t@),
        None => None,
    }
}

/// The title and content an inbox row shows: those of the message it
/// names (the last fetched row with that id), none when it names none or
/// the message was not fetched.
pub fn backfill(message_id: Option<u32>, messages: &Vec<InboxMessage>) -> (r: (
    Option<String>,
    Option<String>,
))
    ensures
        match message_id {
            None => r.0 is None && r.1 is None,
            Some(id) => {
                let k = last_message(messages@, messages@.len() as int, id);
                if k >= 0 {
                    text_view(r.0) == text_view(messages@[k].title) && text_view(r.1) == text_view(
                        messages@[k].content,
                    )
                } else {
                    r.0 is None && r.1 is None
                }
            },
        },
{
    match message_id {
        None => (None, None),
        Some(id) => {
            let mut k: usize = messages.len();
            while k > 0
                invariant
                    k <= messages.len(),
                    message_id == Some(id),
                    last_message(messages@, messages@.len() as int, id) == last_message(
                        messages@,
                        k as int,
                        id,
                    ),
                decreases k,
            {
                if messages[k - 1].id == id {
                    let m = &messages[k - 1];
                    let title = match &m.title {
                        Some(t) => Some(t.clone()),
                        None => None,
                    };
                    let content = match &m.content {
                        Some(t) => Some(t.clone()),
                        None => None,
                    };
                    return (title, content);
                }
                k -= 1;
            }
            (None, None)
        },
    }
}

} // verus!
