//! Conversation sessions: creation, identifiers, the summaries shown in
//! the session list and their order. Saving and loading the JSON files is
//! the application's part.

use vstd::prelude::*;
use crate::paths::{join_path, join_str};
use crate::text::{owned, push_str, string_from};
use crate::types::Message;

verus! {

/// A saved conversation.
#[derive(Debug, Clone)]
pub struct Session {
    pub id: String,
    pub name: Option<String>,
    /// Milliseconds since the Unix epoch.
    pub created_at: i64,
    /// Milliseconds since the Unix epoch.
    pub last_modified: i64,
    pub model: String,
    pub messages: Vec<Message>,
}

/// What the session list shows of a session.
#[derive(Debug, Clone)]
pub struct SessionInfo {
    pub id: String,
    pub name: Option<String>,
    pub created_at: i64,
    pub last_modified: i64,
    pub model: String,
    pub message_count: usize,
}

/// The characters of the random part of a session identifier.
pub open spec fn id_alphabet() -> Seq<char> {
    "0123456789abcdefghijklmnopqrstuvwxyz"@
}

/// The character that the random byte `b` stands for.
pub open spec fn id_char(b: u8) -> char {
    id_alphabet()[(b % 36) as int]
}

/// A session identifier: the creation time, an underscore, and one
/// character per random byte.
pub open spec fn session_id(stamp: Seq<char>, random: Seq<u8>) -> Seq<char> {
    stamp + seq!['_'] + random.map_values(|b: u8| id_char(b))
}

/// A session identifier is the creation time, then `_`, then one
/// character of the alphabet for each random byte.
pub proof fn law_session_id_shape(stamp: Seq<char>, random: Seq<u8>)
    ensures
        ({
            let id = session_id(stamp, random);
            &&& id.len() == stamp.len() + 1 + random.len()
            &&& id.take(stamp.len() as int) == stamp
            &&& id[stamp.len() as int] == '_'
            &&& forall|k: int| 0 <= k < random.len() ==> id_alphabet().contains(
                #[trigger] id[stamp.len() + 1 + k],
            )
        }),
{
    let id = session_id(stamp, random);
    reveal_strlit("0123456789abcdefghijklmnopqrstuvwxyz");
    assert(id.take(stamp.len() as int) =~= stamp);
    assert forall|k: int| 0 <= k < random.len() implies id_alphabet().contains(
        #[trigger] id[stamp.len() + 1 + k],
    ) by {
        let b = random[k];
        assert(id[stamp.len() + 1 + k] == id_char(b));
        assert(0 <= (b % 36) < id_alphabet().len());
        assert(id_alphabet()[(b % 36) as int] == id_char(b));
    }
}

/// `id` ends with an underscore and six characters of the alphabet.
pub open spec fn has_random_suffix(id: Seq<char>) -> bool {
    &&& id.len() >= 7
    &&& id[id.len() - 7] == '_'
    &&& forall|k: int| id.len() - 6 <= k < id.len() ==> id_alphabet().contains(#[trigger] id[k])
}

/// The present time in milliseconds since the Unix epoch, from
/// `chrono::Utc::now().timestamp_millis()`. The clock decides it: nothing
/// is stated.
#[verifier::external_body]
fn now_millis() -> (r: i64) {
    chrono::Utc::now().timestamp_millis()
}

/// The present UTC time written as `%Y%m%d_%H%M%S`, from
/// `chrono::Utc::now().format(..)`. The clock decides it: nothing is
/// stated.
#[verifier::external_body]
fn utc_stamp() -> (r: String) {
    chrono::Utc::now().format("%Y%m%d_%H%M%S").to_string()
}

/// A random byte from `rand::random::<u8>()`. Chance decides it: nothing is
/// stated.
#[verifier::external_body]
fn random_byte() -> (r: u8) {
    rand::random::<u8>()
}

fn id_char_exec(b: u8) -> (c: char)
    ensures
        c == id_char(b),
{
    let alphabet = crate::text::chars_of("0123456789abcdefghijklmnopqrstuvwxyz");
    proof {
        reveal_strlit("0123456789abcdefghijklmnopqrstuvwxyz");
    }
    alphabet[(b % 36) as usize]
}

/// The identifier made of the time `stamp` and the `random` bytes.
pub fn session_id_from(stamp: &str, random: &[u8]) -> (r: String)
    ensures
        r@ == session_id(stamp@, random@),
{
    let mut out: Vec<char> = Vec::new();
    push_str(&mut out, stamp);
    out.push('_');
    let ghost head = out@;
    let mut i: usize = 0;
    while i < random.len()
        invariant
            i <= random@.len(),
            head == stamp@ + seq!['_'],
            out@ == head + random@.take(i as int).map_values(|b: u8| id_char(b)),
        decreases random@.len() - i,
    {
        out.push(id_char_exec(random[i]));
        assert(random@.take(i + 1).map_values(|b: u8| id_char(b)) =~= random@.take(
            i as int,
        ).map_values(|b: u8| id_char(b)).push(id_char(random@[i as int])));
        i = i + 1;
    }
    assert(random@.take(random@.len() as int) =~= random@);
    string_from(out.as_slice())
}

/// A new session identifier: the present time and six random characters.
pub fn generate_session_id() -> (r: String)
    ensures
        has_random_suffix(r@),
{
    let stamp = utc_stamp();
    let mut random: Vec<u8> = Vec::new();
    let mut i: usize = 0;
    while i < 6
        invariant
            i <= 6,
            random@.len() == i,
        decreases 6 - i,
    {
        random.push(random_byte());
        i = i + 1;
    }
    let r = session_id_from(stamp.as_str(), random.as_slice());
    proof {
        let m = random@.map_values(|b: u8| id_char(b));
        let n = r@.len();
        assert(r@ == stamp@ + seq!['_'] + m);
        assert(r@[n - 7] == '_');
        assert forall|k: int| n - 6 <= k < n implies id_alphabet().contains(#[trigger] r@[k]) by {
            let j = k - (n - 6);
            assert(r@[k] == m[j]);
            let b = random@[j];
            assert(0 <= (b % 36) < 36);
            reveal_strlit("0123456789abcdefghijklmnopqrstuvwxyz");
            assert(id_alphabet()[(b % 36) as int] == m[j]);
        }
    }
    r
}

impl Session {
    /// A session for `model` with the identifier `id`, created at `now`,
    /// without name or messages.
    pub fn create(model: String, id: String, now: i64) -> (r: Session)
        ensures
            r.id == id,
            r.name is None,
            r.created_at == now,
            r.last_modified == now,
            r.model == model,
            r.messages@.len() == 0,
    {
        Session { id, name: None, created_at: now, last_modified: now, model, messages: Vec::new() }
    }

    /// A new session for `model`, with a fresh identifier, created now.
    pub fn new(model: String) -> (r: Session)
        ensures
            has_random_suffix(r.id@),
            r.name is None,
            r.created_at == r.last_modified,
            r.model == model,
            r.messages@.len() == 0,
    {
        let now = now_millis();
        let id = generate_session_id();
        Session::create(model, id, now)
    }

    /// Appends `message`, the session being modified at `now`.
    pub fn add_message_at(&mut self, message: Message, now: i64)
        ensures
            final(self).messages@ == old(self).messages@.push(message),
            final(self).last_modified == now,
            final(self).id == old(self).id,
            final(self).name == old(self).name,
            final(self).created_at == old(self).created_at,
            final(self).model == old(self).model,
    {
        self.messages.push(message);
        self.last_modified = now;
    }

    /// Appends `message`; the session is modified now.
    pub fn add_message(&mut self, message: Message)
        ensures
            final(self).messages@ == old(self).messages@.push(message),
            final(self).id == old(self).id,
            final(self).name == old(self).name,
            final(self).created_at == old(self).created_at,
            final(self).model == old(self).model,
    {
        let now = now_millis();
        self.add_message_at(message, now);
    }

    /// Names the session, which is modified at `now`.
    pub fn set_name_at(&mut self, name: String, now: i64)
        ensures
            final(self).name == Some(name),
            final(self).last_modified == now,
            final(self).messages@ == old(self).messages@,
            final(self).id == old(self).id,
            final(self).created_at == old(self).created_at,
            final(self).model == old(self).model,
    {
        self.name = Some(name);
        self.last_modified = now;
    }

    /// Names the session; it is modified now.
    pub fn set_name(&mut self, name: String)
        ensures
            final(self).name == Some(name),
            final(self).messages@ == old(self).messages@,
            final(self).id == old(self).id,
            final(self).created_at == old(self).created_at,
            final(self).model == old(self).model,
    {
        let now = now_millis();
        self.set_name_at(name, now);
    }
}

fn copy_string(s: &String) -> (r: String)
    ensures
        r@ == s@,
{
    owned(s.as_str())
}

impl SessionInfo {
    /// The summary of `session`.
    pub fn from(session: &Session) -> (r: SessionInfo)
        ensures
            r.id@ == session.id@,
            match (r.name, session.name) {
                (Some(a), Some(b)) => a@ == b@,
                (None, None) => true,
                _ => false,
            },
            r.created_at == session.created_at,
            r.last_modified == session.last_modified,
            r.model@ == session.model@,
            r.message_count == session.messages@.len(),
    {
        let name = match &session.name {
            Some(n) => Some(copy_string(n)),
            None => None,
        };
        SessionInfo {
            id: copy_string(&session.id),
            name,
            created_at: session.created_at,
            last_modified: session.last_modified,
            model: copy_string(&session.model),
            message_count: session.messages.len(),
        }
    }
}

/// The directory of the sessions under the data directory `data_dir`.
pub fn sessions_dir_in(data_dir: &str) -> (r: String)
    ensures
        r@ == join_path(join_path(data_dir@, "synthia"@), "sessions"@),
{
    let d = join_str(data_dir, "synthia");
    join_str(d.as_str(), "sessions")
}

/// The file of the session `session_id` in `sessions_dir`.
pub fn get_session_path(sessions_dir: &str, session_id: &str) -> (r: String)
    ensures
        r@ == join_path(sessions_dir@, session_id@ + ".json"@),
{
    let mut f: Vec<char> = Vec::new();
    push_str(&mut f, session_id);
    push_str(&mut f, ".json");
    let name = string_from(f.as_slice());
    join_str(sessions_dir, name.as_str())
}

/// The index of the first session of `s[i..]` modified before `t`, or the
/// length of `s`.
pub open spec fn first_older(s: Seq<SessionInfo>, t: i64, i: int) -> int
    decreases s.len() - i,
{
    if i < 0 || i >= s.len() {
        s.len() as int
    } else if s[i].last_modified < t {
        i
    } else {
        first_older(s, t, i + 1)
    }
}

/// `s` sorted by last modification, most recent first; sessions modified
/// at the same time keep their order (a stable sort).
pub open spec fn by_recency(s: Seq<SessionInfo>) -> Seq<SessionInfo>
    decreases s.len(),
{
    if s.len() == 0 {
        s
    } else {
        let r = by_recency(s.drop_last());
        r.insert(first_older(r, s.last().last_modified, 0), s.last())
    }
}

proof fn lemma_first_older_bounds(s: Seq<SessionInfo>, t: i64, i: int)
    requires
        0 <= i <= s.len(),
    ensures
        i <= first_older(s, t, i) <= s.len(),
        forall|k: int| i <= k < first_older(s, t, i) ==> s[k].last_modified >= t,
        first_older(s, t, i) < s.len() ==> s[first_older(s, t, i)].last_modified < t,
    decreases s.len() - i,
{
    if i < s.len() && s[i].last_modified >= t {
        lemma_first_older_bounds(s, t, i + 1);
    }
}

/// Later sessions in `s` were modified no later than earlier ones.
pub open spec fn recency_ordered(s: Seq<SessionInfo>) -> bool {
    forall|i: int, j: int|
        0 <= i < j < s.len() ==> #[trigger] s[i].last_modified >= #[trigger] s[j].last_modified
}

/// The session list is ordered: most recently modified first.
pub proof fn law_by_recency_ordered(s: Seq<SessionInfo>)
    ensures
        recency_ordered(by_recency(s)),
    decreases s.len(),
{
    if s.len() > 0 {
        law_by_recency_ordered(s.drop_last());
        let r = by_recency(s.drop_last());
        let e = s.last();
        let t = e.last_modified;
        let p = first_older(r, t, 0);
        lemma_first_older_bounds(r, t, 0);
        let r2 = r.insert(p, e);
        assert forall|i: int, j: int| 0 <= i < j < r2.len() implies #[trigger] r2[i].last_modified
            >= #[trigger] r2[j].last_modified by {
            if j < p {
                assert(r2[i] == r[i] && r2[j] == r[j]);
            } else if j == p {
                assert(r2[i] == r[i]);
            } else if i < p {
                assert(r2[i] == r[i] && r2[j] == r[j - 1]);
            } else if i == p {
                assert(r2[j] == r[j - 1]);
                assert(r[p].last_modified < t);
                assert(r[p].last_modified >= r[j - 1].last_modified || p == j - 1);
            } else {
                assert(r2[i] == r[i - 1] && r2[j] == r[j - 1]);
            }
        }
    }
}

/// Sorting neither loses nor invents a session.
pub proof fn law_by_recency_permutation(s: Seq<SessionInfo>)
    ensures
        by_recency(s).to_multiset() == s.to_multiset(),
    decreases s.len(),
{
    broadcast use vstd::seq_lib::to_multiset_insert;
    if s.len() > 0 {
        law_by_recency_permutation(s.drop_last());
        let r = by_recency(s.drop_last());
        lemma_first_older_bounds(r, s.last().last_modified, 0);
        assert(s.drop_last().push(s.last()) =~= s);
        s.drop_last().to_multiset_ensures();
    } else {
        assert(by_recency(s) == s);
    }
}

fn first_older_exec(s: &Vec<SessionInfo>, t: i64) -> (r: usize)
    ensures
        r == first_older(s@, t, 0),
{
    let mut i: usize = 0;
    while i < s.len() && s[i].last_modified >= t
        invariant
            i <= s@.len(),
            first_older(s@, t, 0) == first_older(s@, t, i as int),
        decreases s@.len() - i,
    {
        i = i + 1;
    }
    i
}

/// Sorts `sessions` by last modification, most recent first, keeping the
/// order of sessions modified at the same time.
pub fn sort_by_recency(sessions: Vec<SessionInfo>) -> (r: Vec<SessionInfo>)
    ensures
        r@ == by_recency(sessions@),
{
    let ghost orig = sessions@;
    let mut rest = sessions;
    let mut out: Vec<SessionInfo> = Vec::new();
    assert(orig.take(0) =~= Seq::<SessionInfo>::empty());
    assert(orig.skip(0) =~= orig);
    while rest.len() > 0
        invariant
            rest@.len() <= orig.len(),
            rest@ == orig.skip(orig.len() - rest@.len()),
            out@ == by_recency(orig.take(orig.len() - rest@.len())),
        decreases rest@.len(),
    {
        let ghost i = orig.len() - rest@.len();
        let e = rest.remove(0);
        assert(e == orig[i]);
        assert(rest@ =~= orig.skip(i + 1));
        let ghost taken = orig.take(i + 1);
        assert(taken.drop_last() =~= orig.take(i));
        assert(taken.last() == e);
        let p = first_older_exec(&out, e.last_modified);
        proof {
            lemma_first_older_bounds(out@, e.last_modified, 0);
        }
        out.insert(p, e);
    }
    assert(orig.take(orig.len() as int) =~= orig);
    out
}

/// The identifier of the most recently modified session, the first of the
/// sorted list; `None` when there is no session.
pub fn get_most_recent_session(sessions: Vec<SessionInfo>) -> (r: Option<String>)
    ensures
        match r {
            Some(id) => by_recency(sessions@).len() > 0 && id@ == by_recency(sessions@)[0].id@,
            None => by_recency(sessions@).len() == 0,
        },
{
    let sorted = sort_by_recency(sessions);
    if sorted.len() == 0 {
        None
    } else {
        Some(copy_string(&sorted[0].id))
    }
}

} // verus!
