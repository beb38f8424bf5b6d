//! The table of outstanding requests.
//!
//! Every request that expects a response gets a fresh identifier and is kept
//! under it, in one step, so that the response can be paired with it later.
//! The counter and the table cannot be reached in any other way.

use vstd::prelude::*;
use serde_json::Value;
use crate::codec::encoding;
use crate::counter::Count;
use crate::json::{json_view, Json};
use crate::request::{definition_envelope, definition_message, document_symbol_envelope,
    document_symbol_message, generate_rpc_request, initialize_envelope, initialize_message,
    reference_envelope, reference_message};

verus! {

/// A place in a document: a line and a character in it, both counted from 0.
#[derive(Clone, Copy, Debug)]
pub struct Position {
    pub line: usize,
    pub character: usize,
}

/// What a request asks for.
#[derive(Clone, Copy, Debug)]
pub enum Query {
    /// The opening handshake.
    Initialize,
    /// Where what stands at the position is defined.
    Definition(Position),
    /// Where what stands at the position is used.
    References(Position),
    /// The symbols of the document.
    DocumentSymbol,
}

/// The envelope of the request that asks `query` about the document `uri`
/// under the identifier `id`.
pub open spec fn query_envelope(query: Query, id: int, uri: Seq<char>) -> Json {
    match query {
        Query::Initialize => initialize_envelope(id),
        Query::Definition(at) => definition_envelope(id, uri, at.line as nat, at.character as nat),
        Query::References(at) => reference_envelope(id, uri, at.line as nat, at.character as nat),
        Query::DocumentSymbol => document_symbol_envelope(id, uri),
    }
}

/// The state of the table as specifications see it: the identifier handed
/// out last, 0 before the first, and the request kept under each identifier.
pub struct Outstanding {
    pub last_id: int,
    pub table: Map<int, Json>,
}

impl Outstanding {
    /// The state before any request.
    pub open spec fn initial() -> Outstanding {
        Outstanding { last_id: 0, table: Map::empty() }
    }

    /// Identifiers are handed out from 1 upwards, and nothing is kept under an
    /// identifier that was not handed out.
    pub open spec fn wf(self) -> bool {
        &&& 0 <= self.last_id <= i32::MAX
        &&& forall|k: int| self.table.contains_key(k) ==> 1 <= k <= self.last_id
    }

    /// Issuing a request: the next identifier and the state with the request
    /// kept under it, or `None` once the identifiers have run out.
    pub open spec fn issue(self, query: Query, uri: Seq<char>) -> Option<(int, Outstanding)> {
        if self.last_id < i32::MAX {
            let id = self.last_id + 1;
            Some(
                (
                    id,
                    Outstanding {
                        last_id: id,
                        table: self.table.insert(id, query_envelope(query, id, uri)),
                    },
                ),
            )
        } else {
            None
        }
    }

    /// The request kept under `id`, if there is one.
    pub open spec fn resolve(self, id: int) -> Option<Json> {
        if self.table.contains_key(id) {
            Some(self.table[id])
        } else {
            None
        }
    }
}

/// A request and the identifier it was issued under.
struct Entry {
    id: i32,
    request: Value,
}

/// The table that a list of entries stands for.
spec fn table_of(entries: Seq<Entry>) -> Map<int, Json>
    decreases entries.len(),
{
    if entries.len() == 0 {
        Map::empty()
    } else {
        table_of(entries.drop_last()).insert(
            entries.last().id as int,
            json_view(entries.last().request),
        )
    }
}

/// Whether an entry with the identifier `id` stands among the first `n`.
spec fn listed(entries: Seq<Entry>, n: int, id: int) -> bool {
    exists|i: int| 0 <= i < n && i < entries.len() && #[trigger] entries[i].id == id
}

/// Whether the identifiers of a list of entries grow from each to the next.
spec fn ascending(entries: Seq<Entry>) -> bool {
    forall|i: int, j: int| 0 <= i < j < entries.len() ==> entries[i].id < entries[j].id
}

/// Whether the entries are in the order in which they were issued, each under
/// an identifier that the counter has handed out.
spec fn numbered(entries: Seq<Entry>, last_id: int) -> bool {
    &&& 0 <= last_id <= i32::MAX
    &&& ascending(entries)
    &&& forall|i: int| 0 <= i < entries.len() ==> 1 <= #[trigger] entries[i].id <= last_id
}

/// The table holds exactly the identifiers of the entries, each with the
/// request of its entry.
proof fn lemma_table_of(entries: Seq<Entry>)
    requires
        ascending(entries),
    ensures
        forall|k: int| table_of(entries).contains_key(k) <==> listed(entries, entries.len() as int, k),
        forall|i: int|
            0 <= i < entries.len() ==> table_of(entries)[#[trigger] entries[i].id as int]
                == json_view(entries[i].request),
    decreases entries.len(),
{
    if entries.len() > 0 {
        let front = entries.drop_last();
        let last = entries.last();
        lemma_table_of(front);
        assert forall|k: int| table_of(entries).contains_key(k) implies listed(
            entries,
            entries.len() as int,
            k,
        ) by {
            if k != last.id {
                let i = choose|i: int| 0 <= i < front.len() && #[trigger] front[i].id == k;
                assert(entries[i].id == k);
            }
        }
        assert forall|k: int| listed(entries, entries.len() as int, k) implies table_of(
            entries,
        ).contains_key(k) by {
            let i = choose|i: int| 0 <= i < entries.len() && #[trigger] entries[i].id == k;
            if i < front.len() {
                assert(front[i].id == k);
            }
        }
        assert forall|i: int| 0 <= i < entries.len() implies table_of(
            entries,
        )[#[trigger] entries[i].id as int] == json_view(entries[i].request) by {
            if i < front.len() {
                assert(front[i].id == entries[i].id);
            }
        }
    }
}

/// The table has as many requests as there are entries.
proof fn lemma_table_len(entries: Seq<Entry>)
    requires
        ascending(entries),
    ensures
        table_of(entries).dom().finite(),
        table_of(entries).dom().len() == entries.len(),
    decreases entries.len(),
{
    if entries.len() > 0 {
        let front = entries.drop_last();
        lemma_table_len(front);
        lemma_table_of(front);
        assert(!table_of(front).contains_key(entries.last().id as int)) by {
            if listed(front, front.len() as int, entries.last().id as int) {
                let i = choose|i: int|
                    0 <= i < front.len() && #[trigger] front[i].id == entries.last().id;
                assert(entries[i].id < entries[entries.len() - 1].id);
            }
        }
    }
}

/// The table of outstanding requests, with the counter that numbers them.
pub struct Correlator {
    count: Count,
    entries: Vec<Entry>,
}

impl View for Correlator {
    type V = Outstanding;

    closed spec fn view(&self) -> Outstanding {
        Outstanding { last_id: self.count.value(), table: table_of(self.entries@) }
    }
}

impl Correlator {
    #[verifier::type_invariant]
    spec fn inv(self) -> bool {
        numbered(self.entries@, self.count.value())
    }

    /// An empty table; the first request will get the identifier 1.
    pub fn new() -> (c: Correlator)
        ensures
            c@ == Outstanding::initial(),
            c@.wf(),
    {
        let c = Correlator { count: Count::new(), entries: Vec::new() };
        c
    }

    /// Issues a request: takes the next identifier, builds the request that
    /// asks `query` about the document `uri` under it, keeps the request in
    /// the table, and returns the identifier with the frame to send. Once the
    /// identifiers have run out it returns `None` and changes nothing.
    pub fn issue(&mut self, query: Query, uri: &str) -> (r: Option<(i32, Vec<u8>)>)
        ensures
            old(self)@.wf(),
            final(self)@.wf(),
            match r {
                Some((id, frame)) => old(self)@.issue(query, uri@) == Some((id as int, final(self)@))
                    && frame@ == encoding(query_envelope(query, id as int, uri@)),
                None => old(self)@.issue(query, uri@) is None && final(self)@ == old(self)@,
            },
    {
        proof {
            use_type_invariant(&*self);
            lemma_table_of(self.entries@);
        }
        if self.count.current() == i32::MAX {
            return None;
        }
        let ghost before = self.entries@;
        let id = self.count.current() + 1;
        let request = match query {
            Query::Initialize => initialize_message(id),
            Query::Definition(at) => definition_message(id, uri, at.line, at.character),
            Query::References(at) => reference_message(id, uri, at.line, at.character),
            Query::DocumentSymbol => document_symbol_message(id, uri),
        };
        let frame = generate_rpc_request(&request);
        let mut count = Count::new();
        let mut entries: Vec<Entry> = Vec::new();
        std::mem::swap(&mut self.entries, &mut entries);
        std::mem::swap(&mut self.count, &mut count);
        count.inc();
        entries.push(Entry { id, request });
        proof {
            assert(entries@.drop_last() =~= before);
            lemma_table_of(entries@);
        }
        std::mem::swap(&mut self.count, &mut count);
        std::mem::swap(&mut self.entries, &mut entries);
        Some((id, frame))
    }

    /// Looks up the request that was issued under `id`. That there is none is
    /// no fault: the response then belongs to no request of this client.
    pub fn resolve(&self, id: i64) -> (r: Option<&Value>)
        ensures
            self@.wf(),
            match r {
                Some(request) => self@.resolve(id as int) == Some(json_view(*request)),
                None => self@.resolve(id as int) is None,
            },
    {
        proof {
            use_type_invariant(self);
            lemma_table_of(self.entries@);
        }
        let mut i: usize = 0;
        while i < self.entries.len()
            invariant
                0 <= i <= self.entries.len(),
                numbered(self.entries@, self.count.value()),
                !listed(self.entries@, i as int, id as int),
            decreases self.entries.len() - i,
        {
            if self.entries[i].id as i64 == id {
                proof {
                    lemma_table_of(self.entries@);
                }
                return Some(&self.entries[i].request);
            }
            i += 1;
        }
        proof {
            lemma_table_of(self.entries@);
        }
        None
    }

    /// The identifier that was handed out last, 0 before the first.
    pub fn last_id(&self) -> (n: i32)
        ensures
            n == self@.last_id,
            self@.wf(),
    {
        proof {
            use_type_invariant(self);
            lemma_table_of(self.entries@);
        }
        self.count.current()
    }

    /// The number of requests in the table.
    pub fn len(&self) -> (n: usize)
        ensures
            n == self@.table.dom().len(),
    {
        proof {
            use_type_invariant(self);
            lemma_table_len(self.entries@);
        }
        self.entries.len()
    }
}

/// One use of the table: a request is issued, or a response is paired with
/// its request.
pub enum Use {
    Issue { query: Query, uri: Seq<char> },
    Resolve { id: int },
}

/// The state after one use of the table. Pairing a response changes nothing,
/// and neither does a request that finds the identifiers run out.
pub open spec fn after_use(c: Outstanding, u: Use) -> Outstanding {
    match u {
        Use::Issue { query, uri } => match c.issue(query, uri) {
            Some((_, next)) => next,
            None => c,
        },
        Use::Resolve { .. } => c,
    }
}

/// The identifier that one use of the table hands out, if it hands out one.
pub open spec fn id_of_use(c: Outstanding, u: Use) -> Seq<int> {
    match u {
        Use::Issue { query, uri } => match c.issue(query, uri) {
            Some((id, _)) => seq![id],
            None => Seq::empty(),
        },
        Use::Resolve { .. } => Seq::empty(),
    }
}

/// The state after the uses `uses`, one after another, from the state `c`.
pub open spec fn after_uses(c: Outstanding, uses: Seq<Use>) -> Outstanding
    decreases uses.len(),
{
    if uses.len() == 0 {
        c
    } else {
        after_uses(after_use(c, uses[0]), uses.drop_first())
    }
}

/// The identifiers that the uses `uses`, one after another from the state
/// `c`, hand out, in the order of issue.
pub open spec fn issued_ids(c: Outstanding, uses: Seq<Use>) -> Seq<int>
    decreases uses.len(),
{
    if uses.len() == 0 {
        Seq::empty()
    } else {
        id_of_use(c, uses[0]) + issued_ids(after_use(c, uses[0]), uses.drop_first())
    }
}

/// Using the table keeps the state well formed, and every identifier that is
/// handed out is larger than the last one handed out before.
pub proof fn lemma_issued_ids_above(c: Outstanding, uses: Seq<Use>)
    requires
        c.wf(),
    ensures
        after_uses(c, uses).wf(),
        c.last_id <= after_uses(c, uses).last_id,
        forall|i: int| 0 <= i < issued_ids(c, uses).len() ==> c.last_id < issued_ids(c, uses)[i],
    decreases uses.len(),
{
    if uses.len() > 0 {
        let next = after_use(c, uses[0]);
        let rest = uses.drop_first();
        lemma_issued_ids_above(next, rest);
        assert forall|i: int| 0 <= i < issued_ids(c, uses).len() implies c.last_id < issued_ids(
            c,
            uses,
        )[i] by {
            let k = id_of_use(c, uses[0]).len();
            if i >= k {
                assert(issued_ids(c, uses)[i] == issued_ids(next, rest)[i - k]);
            }
        }
    }
}

/// Identifiers are unique: of the identifiers handed out in one session, a
/// later one is larger than an earlier one, so no two are the same, whatever
/// else the table was used for in between.
pub proof fn lemma_identifiers_increase(c: Outstanding, uses: Seq<Use>, i: int, j: int)
    requires
        c.wf(),
        0 <= i < j < issued_ids(c, uses).len(),
    ensures
        issued_ids(c, uses)[i] < issued_ids(c, uses)[j],
    decreases uses.len(),
{
    let next = after_use(c, uses[0]);
    let rest = uses.drop_first();
    let k = id_of_use(c, uses[0]).len();
    assert(issued_ids(c, uses)[j] == issued_ids(next, rest)[j - k]);
    if i < k {
        lemma_issued_ids_above(next, rest);
    } else {
        lemma_identifiers_increase(next, rest, i - k, j - k);
    }
}

/// The first identifier of a session is 1, and each later one is the one
/// before it plus 1.
pub proof fn lemma_identifiers_count_up(c: Outstanding, uses: Seq<Use>, i: int)
    requires
        c.wf(),
        0 <= i < issued_ids(c, uses).len(),
    ensures
        issued_ids(c, uses)[i] == c.last_id + 1 + i,
    decreases uses.len(),
{
    let next = after_use(c, uses[0]);
    let rest = uses.drop_first();
    let k = id_of_use(c, uses[0]).len();
    if i >= k {
        lemma_identifiers_count_up(next, rest, i - k);
    }
}

/// What is kept under an identifier stays there, unchanged, whatever the
/// table is used for afterwards.
pub proof fn lemma_kept_requests_stay(c: Outstanding, uses: Seq<Use>, id: int)
    requires
        c.wf(),
        c.table.contains_key(id),
    ensures
        after_uses(c, uses).resolve(id) == c.resolve(id),
    decreases uses.len(),
{
    if uses.len() > 0 {
        lemma_kept_requests_stay(after_use(c, uses[0]), uses.drop_first(), id);
    }
}

/// Correlation: a request issued under an identifier is what that identifier
/// resolves to, right away and after any number of further requests and
/// responses, in any order.
pub proof fn lemma_resolves_to_issued(c: Outstanding, query: Query, uri: Seq<char>, later: Seq<Use>)
    requires
        c.wf(),
    ensures
        match c.issue(query, uri) {
            Some((id, next)) => after_uses(next, later).resolve(id) == Some(
                query_envelope(query, id, uri),
            ),
            None => c.last_id == i32::MAX,
        },
{
    match c.issue(query, uri) {
        Some((id, next)) => {
            lemma_kept_requests_stay(next, later, id);
        },
        None => {},
    }
}

/// An identifier that was never handed out resolves to nothing.
pub proof fn lemma_unissued_is_unresolved(c: Outstanding, id: int)
    requires
        c.wf(),
        id < 1 || id > c.last_id,
    ensures
        c.resolve(id) is None,
{
}

} // verus!
