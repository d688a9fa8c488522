//! The sibling read/write handlers' decision and encoding kernels: messages,
//! posts, user search, the friend/block list, and list deletion. Storage and
//! transport stay outside; these functions take and return plain values.

use vstd::prelude::*;

verus! {

use vstd::string::StrSliceExecFns;
use vstd::string::StringExecFns;
use crate::num::{i64_to_string, parse_i32_list, spec_i32_list, spec_int_chars, spec_nat_chars, u64_to_string};
use crate::request::DeleteForm;
use vstd::utf8::encode_utf8;

/// A private message, modelled with its creation time already humanised by
/// the caller (`age`, the relative-time text with its trailing `ago`
/// removed).
pub struct Message {
    pub message_id: i32,
    pub user_id: i32,
    pub subject: String,
    pub body: String,
    pub username: String,
    pub is_read: i16,
    pub is_sender: i16,
    pub target_id: i32,
    pub age: String,
}

/// The message wire record: field-indexed, colon-separated; keys 1 id,
/// 2 and 3 sender id, 4 subject, 5 body, 6 sender name, 7 age, 8 read flag,
/// 9 sender-side flag.
pub open spec fn spec_message_record(m: Message) -> Seq<char> {
    seq!['1', ':'] + spec_int_chars(m.message_id as int) + seq![':', '2', ':'] + spec_int_chars(
        m.user_id as int,
    ) + seq![':', '3', ':'] + spec_int_chars(m.user_id as int) + seq![':', '4', ':'] + m.subject@
        + seq![':', '5', ':'] + m.body@ + seq![':', '6', ':'] + m.username@ + seq![':', '7', ':']
        + m.age@ + seq![':', '8', ':'] + spec_int_chars(m.is_read as int) + seq![':', '9', ':']
        + spec_int_chars(m.is_sender as int)
}

impl Message {
    #[verifier::rlimit(100)]
    pub fn to_gd(message: Message) -> (r: String)
        ensures
            r@ == spec_message_record(message),
    {
        let m = message;
        let mut r = "1:".to_owned();
        r.append(i64_to_string(m.message_id as i64).as_str());
        r.append(":2:");
        r.append(i64_to_string(m.user_id as i64).as_str());
        r.append(":3:");
        r.append(i64_to_string(m.user_id as i64).as_str());
        r.append(":4:");
        r.append(m.subject.as_str());
        r.append(":5:");
        r.append(m.body.as_str());
        r.append(":6:");
        r.append(m.username.as_str());
        r.append(":7:");
        r.append(m.age.as_str());
        r.append(":8:");
        r.append(i64_to_string(m.is_read as i64).as_str());
        r.append(":9:");
        r.append(i64_to_string(m.is_sender as i64).as_str());
        proof {
            reveal_strlit("1:");
            reveal_strlit(":2:");
            reveal_strlit(":3:");
            reveal_strlit(":4:");
            reveal_strlit(":5:");
            reveal_strlit(":6:");
            reveal_strlit(":7:");
            reveal_strlit(":8:");
            reveal_strlit(":9:");
            assert(r@ =~= spec_message_record(m));
        }
        r
    }

    /// A downloaded message is handed out read and from the receiver's side.
    pub fn mark_downloaded(&mut self)
        ensures
            final(self).is_read == 1,
            final(self).is_sender == 0,
            final(self).message_id == old(self).message_id,
            final(self).user_id == old(self).user_id,
            final(self).subject == old(self).subject,
            final(self).body == old(self).body,
            final(self).username == old(self).username,
            final(self).target_id == old(self).target_id,
            final(self).age == old(self).age,
    {
        self.is_read = 1;
        self.is_sender = 0;
    }
}

/// Set every message's sender-side flag, as the inbox (0) and outbox (1)
/// listings do.
pub fn set_sender_flags(messages: &mut Vec<Message>, flag: i16)
    ensures
        final(messages)@.len() == old(messages)@.len(),
        forall|i: int|
            0 <= i < final(messages)@.len() ==> (#[trigger] final(messages)@[i]).is_sender == flag
                && final(messages)@[i].message_id == old(messages)@[i].message_id,
{
    let mut i: usize = 0;
    let n = messages.len();
    while i < n
        invariant
            i <= n == messages@.len(),
            messages@.len() == old(messages)@.len(),
            forall|k: int|
                i <= k < messages@.len() ==> #[trigger] messages@[k] == old(messages)@[k],
            forall|k: int|
                0 <= k < i ==> (#[trigger] messages@[k]).is_sender == flag
                    && messages@[k].message_id == old(messages)@[k].message_id,
        decreases n - i,
    {
        let mut m = messages.remove(i);
        m.is_sender = flag;
        messages.insert(i, m);
        i = i + 1;
    }
}

/// Which deletions a message-deletion request asks for: `(message id,
/// as sender)` pairs. An empty id list falls back to the single id; a
/// sender flag other than 0 or 1 asks for nothing.
pub open spec fn spec_delete_targets(f: DeleteForm) -> Seq<(int, bool)> {
    if f.is_sender != 0 && f.is_sender != 1 {
        Seq::empty()
    } else {
        let flag = f.is_sender == 1;
        if f.message_ids@.len() == 0 {
            seq![(f.message_id as int, flag)]
        } else {
            spec_i32_list(encode_utf8(f.message_ids@)).map_values(|x: int| (x, flag))
        }
    }
}

pub fn delete_message_targets(form: &DeleteForm) -> (r: Vec<(i32, bool)>)
    ensures
        r@.map_values(|t: (i32, bool)| (t.0 as int, t.1)) == spec_delete_targets(*form),
{
    let mut r: Vec<(i32, bool)> = Vec::new();
    if form.is_sender != 0 && form.is_sender != 1 {
        proof {
            assert(r@.map_values(|t: (i32, bool)| (t.0 as int, t.1)) =~= spec_delete_targets(
                *form,
            ));
        }
        return r;
    }
    let flag = form.is_sender == 1;
    if form.message_ids.as_str().unicode_len() == 0 {
        r.push((form.message_id, flag));
        proof {
            assert(r@.map_values(|t: (i32, bool)| (t.0 as int, t.1)) =~= spec_delete_targets(
                *form,
            ));
        }
        return r;
    }
    let ids = parse_i32_list(form.message_ids.as_str());
    let mut i: usize = 0;
    while i < ids.len()
        invariant
            i <= ids@.len(),
            r@.len() == i,
            forall|k: int|
                0 <= k < i ==> #[trigger] r@[k] == (ids@[k], flag),
        decreases ids@.len() - i,
    {
        r.push((ids[i], flag));
        i = i + 1;
    }
    proof {
        assert(r@.map_values(|t: (i32, bool)| (t.0 as int, t.1)) =~= spec_delete_targets(*form));
    }
    r
}

/// Join already-encoded records with `|`, no trailing separator.
pub open spec fn spec_join_pipe(s: Seq<String>) -> Seq<char>
    decreases s.len(),
{
    if s.len() == 0 {
        Seq::empty()
    } else if s.len() == 1 {
        s[0]@
    } else {
        spec_join_pipe(s.drop_last()) + seq!['|'] + s.last()@
    }
}

pub fn join_pipe(records: &Vec<String>) -> (r: String)
    ensures
        r@ == spec_join_pipe(records@),
{
    let mut r = String::new();
    let mut i: usize = 0;
    while i < records.len()
        invariant
            i <= records@.len(),
            r@ == spec_join_pipe(records@.take(i as int)),
        decreases records@.len() - i,
    {
        if i > 0 {
            r.append("|");
        }
        r.append(records[i].as_str());
        proof {
            reveal_strlit("|");
            assert(records@.take(i + 1).drop_last() =~= records@.take(i as int));
            assert(records@.take(i + 1).last() == records@[i as int]);
            assert(r@ =~= spec_join_pipe(records@.take(i + 1)));
        }
        i = i + 1;
    }
    proof {
        assert(records@.take(records@.len() as int) =~= records@);
    }
    r
}

/// The `#count:offset:10` footer the sibling listings append.
pub open spec fn spec_footer(count: int, page: int) -> Seq<char> {
    seq!['#'] + spec_nat_chars(count) + seq![':'] + spec_int_chars(page * 10) + seq![':', '1', '0']
}

fn footer(count: usize, page: i32) -> (r: String)
    requires
        -214_748_364 <= page <= 214_748_364,
    ensures
        r@ == spec_footer(count as int, page as int),
{
    let mut r = "#".to_owned();
    r.append(u64_to_string(count as u64).as_str());
    r.append(":");
    let offset: i32 = page * 10;
    r.append(i64_to_string(offset as i64).as_str());
    r.append(":10");
    proof {
        reveal_strlit("#");
        reveal_strlit(":");
        reveal_strlit(":10");
        assert(r@ =~= spec_footer(count as int, page as int));
    }
    r
}

/// The user-search response: the no-results sentinel, or the encoded users
/// joined by `|` with the pagination footer.
pub fn users_response(encoded: &Vec<String>, page: i32) -> (r: String)
    requires
        -214_748_364 <= page <= 214_748_364,
    ensures
        encoded@.len() == 0 ==> r@ == "-2"@,
        encoded@.len() > 0 ==> r@ == spec_join_pipe(encoded@) + spec_footer(
            encoded@.len() as int,
            page as int,
        ),
{
    if encoded.len() == 0 {
        return "-2".to_owned();
    }
    let mut r = join_pipe(encoded);
    let f = footer(encoded.len(), page);
    r.append(f.as_str());
    r
}

/// The post-listing response: an empty page keeps the bare `#0:0:10` footer,
/// a populated one joins the encoded posts before its footer.
pub fn posts_response(encoded: &Vec<String>, page: i32) -> (r: String)
    requires
        -214_748_364 <= page <= 214_748_364,
    ensures
        encoded@.len() == 0 ==> r@ == "#0:0:10"@,
        encoded@.len() > 0 ==> r@ == spec_join_pipe(encoded@) + spec_footer(
            encoded@.len() as int,
            page as int,
        ),
{
    if encoded.len() == 0 {
        return "#0:0:10".to_owned();
    }
    let mut r = join_pipe(encoded);
    let f = footer(encoded.len(), page);
    r.append(f.as_str());
    r
}

/// Join encoded users with each entry's friendship suffix `:41:1`, as the
/// friend listing does.
pub open spec fn spec_join_friend(s: Seq<String>) -> Seq<char>
    decreases s.len(),
{
    if s.len() == 0 {
        Seq::empty()
    } else if s.len() == 1 {
        s[0]@ + seq![':', '4', '1', ':', '1']
    } else {
        spec_join_friend(s.drop_last()) + seq!['|'] + s.last()@ + seq![':', '4', '1', ':', '1']
    }
}

/// The friend/block listing: the sentinel for an empty relation; blocks
/// (type 1) join bare records, friends add the `:41:1` suffix to each.
pub fn user_list_response(list_type: u8, encoded: &Vec<String>) -> (r: String)
    ensures
        encoded@.len() == 0 ==> r@ == "-2"@,
        encoded@.len() > 0 && list_type == 1 ==> r@ == spec_join_pipe(encoded@),
        encoded@.len() > 0 && list_type != 1 ==> r@ == spec_join_friend(encoded@),
{
    if encoded.len() == 0 {
        return "-2".to_owned();
    }
    if list_type == 1 {
        return join_pipe(encoded);
    }
    let mut r = String::new();
    let mut i: usize = 0;
    while i < encoded.len()
        invariant
            i <= encoded@.len(),
            r@ == spec_join_friend(encoded@.take(i as int)),
        decreases encoded@.len() - i,
    {
        if i > 0 {
            r.append("|");
        }
        r.append(encoded[i].as_str());
        r.append(":41:1");
        proof {
            reveal_strlit("|");
            reveal_strlit(":41:1");
            assert(encoded@.take(i + 1).drop_last() =~= encoded@.take(i as int));
            assert(encoded@.take(i + 1).last() == encoded@[i as int]);
            assert(r@ =~= spec_join_friend(encoded@.take(i + 1)));
        }
        i = i + 1;
    }
    proof {
        assert(encoded@.take(encoded@.len() as int) =~= encoded@);
    }
    r
}

/// The list-deletion decision: a failed credential gate answers `-1` and
/// deletes nothing; a passed one deletes and answers `1`.
pub fn delete_list_plan(verified: bool) -> (r: (bool, String))
    ensures
        r.0 == verified,
        verified ==> r.1@ == "1"@,
        !verified ==> r.1@ == "-1"@,
{
    if verified {
        (true, "1".to_owned())
    } else {
        (false, "-1".to_owned())
    }
}

/// The credential gate's comparison: the presented token against the stored
/// one, by exact text.
pub fn gjp2_matches(presented: &str, stored: &str) -> (r: bool)
    ensures
        r == (presented@ == stored@),
{
    crate::text::str_eq(presented, stored)
}

} // verus!
