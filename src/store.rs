use vstd::math::min;
use vstd::prelude::*;

use crate::model::{
    File, FileRowView, FileView, Id, ReceiveFileDetails, SendFileDetails, ShareLink, ShareLinkView,
    Timestamp, User, UserView,
};
use crate::pattern::{chars_of, like, like_match};

verus! {

/// Why a store operation did not take effect.
#[derive(Clone, Copy, PartialEq, Eq, Structural, Debug)]
pub enum StoreError {
    /// The record that the operation updates does not exist.
    NotFound,
    /// A uniqueness constraint (a user's email or id) would be violated.
    Conflict,
    /// A multi-record write was refused; none of its records were written.
    TransactionFailure,
    /// A listing was asked for page 0; pages are numbered from 1.
    InvalidPage,
}

/// The abstract contents of the store: its three tables.
pub struct DBState {
    pub users: Seq<UserView>,
    pub files: Seq<FileView>,
    pub links: Seq<ShareLinkView>,
}

pub open spec fn has_user(users: Seq<UserView>, id: Id) -> bool {
    exists|j: int| 0 <= j < users.len() && #[trigger] users[j].id == id
}

pub open spec fn email_taken(users: Seq<UserView>, email: Seq<char>) -> bool {
    exists|j: int| 0 <= j < users.len() && #[trigger] users[j].email == email
}

pub open spec fn file_id_taken(files: Seq<FileView>, id: Id) -> bool {
    exists|j: int| 0 <= j < files.len() && #[trigger] files[j].id == id
}

pub open spec fn link_id_taken(links: Seq<ShareLinkView>, id: Id) -> bool {
    exists|j: int| 0 <= j < links.len() && #[trigger] links[j].id == id
}

impl DBState {
    /// The store's invariant.  Ids and emails are unique; files and links
    /// are stored in pairs, the link at each position referring to the file
    /// at the same position; every reference to a user resolves; links are
    /// kept in order of their creation stamps.
    pub open spec fn wf(self) -> bool {
        &&& forall|i: int, j: int|
            0 <= i < j < self.users.len() ==> self.users[i].id != self.users[j].id
                && self.users[i].email != self.users[j].email
        &&& self.files.len() == self.links.len()
        &&& forall|i: int| 0 <= i < self.links.len() ==> #[trigger] self.links[i].file_id == self.files[i].id
        &&& forall|i: int, j: int| 0 <= i < j < self.files.len() ==> self.files[i].id != self.files[j].id
        &&& forall|i: int, j: int| 0 <= i < j < self.links.len() ==> self.links[i].id != self.links[j].id
        &&& forall|i: int|
            0 <= i < self.links.len() ==> has_user(self.users, #[trigger] self.links[i].recipient_user_id)
        &&& forall|i: int|
            0 <= i < self.files.len() ==> (#[trigger] self.files[i].user_id) is Some && has_user(
                self.users,
                self.files[i].user_id->0,
            )
        &&& forall|i: int, j: int|
            0 <= i <= j < self.links.len() ==> self.links[i].created_at.micros
                <= self.links[j].created_at.micros
    }
}

/// Whether `l` lets `user_id` retrieve through `shared_id` at time `now`.
pub open spec fn grants(l: ShareLinkView, shared_id: Id, user_id: Id, now: Timestamp) -> bool {
    l.id == shared_id && l.recipient_user_id == user_id && l.expiration_date.micros > now.micros
}

/// The link that `shared_id` names, if it is addressed to `user_id` and has
/// not expired at `now`; absent in every other case.
pub open spec fn shared_for(s: DBState, shared_id: Id, user_id: Id, now: Timestamp) -> Option<
    ShareLinkView,
> {
    if exists|i: int| 0 <= i < s.links.len() && grants(#[trigger] s.links[i], shared_id, user_id, now) {
        Some(
            s.links[choose|i: int|
                0 <= i < s.links.len() && grants(#[trigger] s.links[i], shared_id, user_id, now)],
        )
    } else {
        None
    }
}

/// The file with id `file_id`, if there is one.
pub open spec fn file_for(s: DBState, file_id: Id) -> Option<FileView> {
    if file_id_taken(s.files, file_id) {
        Some(s.files[choose|i: int| 0 <= i < s.files.len() && #[trigger] s.files[i].id == file_id])
    } else {
        None
    }
}

pub open spec fn link_view_of(o: Option<ShareLink>) -> Option<ShareLinkView> {
    match o {
        Some(l) => Some(l@),
        None => None,
    }
}

pub open spec fn file_view_of(o: Option<File>) -> Option<FileView> {
    match o {
        Some(f) => Some(f@),
        None => None,
    }
}

/// Whether an upload with these parties and ids can be stored.
pub open spec fn upload_allowed(
    s: DBState,
    user_id: Id,
    recipient_user_id: Id,
    file_id: Id,
    link_id: Id,
) -> bool {
    &&& has_user(s.users, user_id)
    &&& has_user(s.users, recipient_user_id)
    &&& !file_id_taken(s.files, file_id)
    &&& !link_id_taken(s.links, link_id)
}

/// The creation stamp of the next record: `now`, or the newest stamp already
/// recorded if the clock reads earlier than that.
pub open spec fn next_stamp(s: DBState, now: Timestamp) -> Timestamp {
    if s.links.len() > 0 && s.links.last().created_at.micros > now.micros {
        s.links.last().created_at
    } else {
        now
    }
}

/// The state after an upload has been stored: one new file and one new
/// link that refers to it.
pub open spec fn stored(
    s: DBState,
    user_id: Id,
    file_name: Seq<char>,
    file_size: i64,
    recipient_user_id: Id,
    password: Seq<char>,
    expiration_date: Timestamp,
    encrypted_aes_key: Seq<u8>,
    encrypted_file: Seq<u8>,
    iv: Seq<u8>,
    file_id: Id,
    link_id: Id,
    now: Timestamp,
) -> DBState {
    let stamp = next_stamp(s, now);
    DBState {
        users: s.users,
        files: s.files.push(
            FileView {
                id: file_id,
                user_id: Some(user_id),
                file_name,
                file_size,
                encrypted_aes_key,
                encrypted_file,
                iv,
                created_at: stamp,
            },
        ),
        links: s.links.push(
            ShareLinkView {
                id: link_id,
                file_id,
                recipient_user_id,
                password,
                expiration_date,
                created_at: stamp,
            },
        ),
    }
}

/// The positions in `[lo, hi)` that satisfy `pred`, highest first.
pub open spec fn positions_where(pred: spec_fn(int) -> bool, lo: int, hi: int) -> Seq<int>
    decreases hi - lo,
{
    if lo >= hi {
        Seq::empty()
    } else if pred(lo) {
        positions_where(pred, lo + 1, hi).push(lo)
    } else {
        positions_where(pred, lo + 1, hi)
    }
}

/// Whether the upload at position `i` was sent by `owner`.
pub open spec fn sent_by(s: DBState, owner: Id) -> spec_fn(int) -> bool {
    |i: int| s.files[i].user_id == Some(owner)
}

/// Whether the link at position `i` is addressed to `recipient`.
pub open spec fn received_by(s: DBState, recipient: Id) -> spec_fn(int) -> bool {
    |i: int| s.links[i].recipient_user_id == recipient
}

/// The positions of everything `owner` has sent, most recent first.
pub open spec fn sent_positions(s: DBState, owner: Id) -> Seq<int> {
    positions_where(sent_by(s, owner), 0, s.links.len() as int)
}

/// The positions of everything addressed to `recipient`, most recent first.
pub open spec fn received_positions(s: DBState, recipient: Id) -> Seq<int> {
    positions_where(received_by(s, recipient), 0, s.links.len() as int)
}

/// The email of the user with id `id`.
pub open spec fn user_email(s: DBState, id: Id) -> Seq<char> {
    s.users[choose|j: int| 0 <= j < s.users.len() && #[trigger] s.users[j].id == id].email
}

/// The sender's view of the upload at position `i`.
pub open spec fn sent_row(s: DBState, i: int) -> FileRowView {
    FileRowView {
        file_id: s.files[i].id,
        file_name: s.files[i].file_name,
        email: user_email(s, s.links[i].recipient_user_id),
        expiration_date: s.links[i].expiration_date,
        created_at: s.links[i].created_at,
    }
}

/// The recipient's view of the upload at position `i`.
pub open spec fn received_row(s: DBState, i: int) -> FileRowView {
    FileRowView {
        file_id: s.links[i].id,
        file_name: s.files[i].file_name,
        email: user_email(s, s.files[i].user_id->0),
        expiration_date: s.links[i].expiration_date,
        created_at: s.links[i].created_at,
    }
}

/// Page `page` (numbered from 1) of `limit` items each, out of `all`.
pub open spec fn page_window<A>(all: Seq<A>, page: int, limit: int) -> Seq<A> {
    let start = (page - 1) * limit;
    all.subrange(min(start, all.len() as int), min(start + limit, all.len() as int))
}

pub open spec fn sent_page(s: DBState, owner: Id, page: int, limit: int) -> Seq<FileRowView> {
    page_window(sent_positions(s, owner), page, limit).map_values(|i: int| sent_row(s, i))
}

pub open spec fn received_page(s: DBState, recipient: Id, page: int, limit: int) -> Seq<FileRowView> {
    page_window(received_positions(s, recipient), page, limit).map_values(|i: int| received_row(s, i))
}

pub open spec fn sent_views(v: Seq<SendFileDetails>) -> Seq<FileRowView> {
    v.map_values(|d: SendFileDetails| d@)
}

pub open spec fn received_views(v: Seq<ReceiveFileDetails>) -> Seq<FileRowView> {
    v.map_values(|d: ReceiveFileDetails| d@)
}

/// Whether the `k`-th item of a listing (counted from 0) lies on page
/// `page` of `limit` items each.
pub open spec fn on_page(k: int, page: int, limit: int) -> bool {
    (page - 1) * limit <= k < (page - 1) * limit + limit
}

proof fn lemma_on_page_div(k: int, limit: int, p: int)
    requires
        k >= 0,
        limit > 0,
        p >= 0,
    ensures
        (p * limit <= k < p * limit + limit) <==> k / limit == p,
{
    let q = k / limit;
    vstd::arithmetic::div_mod::lemma_fundamental_div_mod(k, limit);
    assert(0 <= k % limit < limit);
    assert(q >= 0) by (nonlinear_arith)
        requires
            k >= 0,
            limit > 0,
            q == k / limit,
    ;
    if q < p {
        assert(limit * q + limit <= limit * p) by (nonlinear_arith)
            requires
                q < p,
                limit > 0,
        ;
    }
    if q > p {
        assert(limit * p + limit <= limit * q) by (nonlinear_arith)
            requires
                q > p,
                limit > 0,
        ;
    }
    assert(p * limit == limit * p) by (nonlinear_arith);
}

proof fn lemma_user_email(s: DBState, j: int, id: Id)
    requires
        s.wf(),
        0 <= j < s.users.len(),
        s.users[j].id == id,
    ensures
        user_email(s, id) == s.users[j].email,
{
    let k = choose|k: int| 0 <= k < s.users.len() && #[trigger] s.users[k].id == id;
    if k < j {
        assert(s.users[k].id != s.users[j].id);
    } else if k > j {
        assert(s.users[j].id != s.users[k].id);
    }
}

/// The page of `pos` that a listing has gathered once it has seen the
/// first `k` of them.
pub open spec fn gathered<A>(pos: Seq<A>, k: int, page: int, limit: int) -> Seq<A> {
    let start = (page - 1) * limit;
    pos.subrange(min(start, k), min(start + limit, k))
}

/// Whether `l` has expired at `now`: its expiration lies strictly before.
pub open spec fn expired(l: ShareLinkView, now: Timestamp) -> bool {
    l.expiration_date.micros < now.micros
}

/// The positions in `[lo, hi)` whose link has not expired at `now`, in
/// ascending order.
pub open spec fn live_positions(links: Seq<ShareLinkView>, now: Timestamp, lo: int, hi: int) -> Seq<int>
    decreases hi - lo,
{
    if lo >= hi {
        Seq::empty()
    } else if expired(links[lo], now) {
        live_positions(links, now, lo + 1, hi)
    } else {
        seq![lo] + live_positions(links, now, lo + 1, hi)
    }
}

/// The state after a sweep at `now`: every expired link is gone, and so is
/// the file it referred to; everything else stays, in the same order.
pub open spec fn swept(s: DBState, now: Timestamp) -> DBState {
    let keep = live_positions(s.links, now, 0, s.links.len() as int);
    DBState {
        users: s.users,
        files: keep.map_values(|p: int| s.files[p]),
        links: keep.map_values(|p: int| s.links[p]),
    }
}

pub(crate) proof fn lemma_live_positions(links: Seq<ShareLinkView>, now: Timestamp, lo: int, hi: int)
    requires
        0 <= lo <= hi,
    ensures
        forall|k: int|
            0 <= k < live_positions(links, now, lo, hi).len() ==> lo <= #[trigger] live_positions(
                links,
                now,
                lo,
                hi,
            )[k] < hi && !expired(links[live_positions(links, now, lo, hi)[k]], now),
        forall|a: int, b: int|
            0 <= a < b < live_positions(links, now, lo, hi).len() ==> live_positions(
                links,
                now,
                lo,
                hi,
            )[a] < live_positions(links, now, lo, hi)[b],
        forall|p: int|
            lo <= p < hi && !expired(#[trigger] links[p], now) ==> live_positions(
                links,
                now,
                lo,
                hi,
            ).contains(p),
        live_positions(links, now, lo, hi).len() <= hi - lo,
    decreases hi - lo,
{
    if lo < hi {
        lemma_live_positions(links, now, lo + 1, hi);
        let rest = live_positions(links, now, lo + 1, hi);
        if !expired(links[lo], now) {
            let cur = seq![lo] + rest;
            assert(cur == live_positions(links, now, lo, hi));
            assert forall|p: int| lo <= p < hi && !expired(#[trigger] links[p], now) implies cur.contains(p) by {
                if p == lo {
                    assert(cur[0] == lo);
                } else {
                    assert(rest.contains(p));
                    let k = choose|k: int| 0 <= k < rest.len() && rest[k] == p;
                    assert(cur[k + 1] == p);
                }
            }
        }
    }
}

pub(crate) proof fn lemma_live_positions_all(links: Seq<ShareLinkView>, now: Timestamp, lo: int, hi: int)
    requires
        0 <= lo <= hi,
        forall|p: int| lo <= p < hi ==> !expired(#[trigger] links[p], now),
    ensures
        live_positions(links, now, lo, hi).len() == hi - lo,
        forall|k: int|
            0 <= k < hi - lo ==> #[trigger] live_positions(links, now, lo, hi)[k] == lo + k,
    decreases hi - lo,
{
    if lo < hi {
        lemma_live_positions_all(links, now, lo + 1, hi);
        assert(!expired(links[lo], now));
    }
}

proof fn lemma_swept_wf(s: DBState, now: Timestamp)
    requires
        s.wf(),
    ensures
        swept(s, now).wf(),
{
    let keep = live_positions(s.links, now, 0, s.links.len() as int);
    lemma_live_positions(s.links, now, 0, s.links.len() as int);
    let t = swept(s, now);
    assert forall|a: int, b: int| 0 <= a < b < t.links.len() implies t.links[a].id != t.links[b].id
        && t.files[a].id != t.files[b].id && t.links[a].created_at.micros
        <= t.links[b].created_at.micros by {
        assert(keep[a] < keep[b]);
    }
    assert forall|i: int| 0 <= i < t.links.len() implies #[trigger] t.links[i].file_id
        == t.files[i].id by {
        assert(0 <= keep[i] < s.links.len());
    }
    assert forall|i: int| 0 <= i < t.links.len() implies has_user(
        t.users,
        #[trigger] t.links[i].recipient_user_id,
    ) by {
        assert(0 <= keep[i] < s.links.len());
        assert(t.links[i] == s.links[keep[i]]);
    }
    assert forall|i: int| 0 <= i < t.files.len() implies (#[trigger] t.files[i].user_id) is Some
        && has_user(t.users, t.files[i].user_id->0) by {
        assert(0 <= keep[i] < s.links.len());
        assert(t.files[i] == s.files[keep[i]]);
    }
    assert forall|a: int, b: int| 0 <= a <= b < t.links.len() implies t.links[a].created_at.micros
        <= t.links[b].created_at.micros by {
        if a < b {
            assert(keep[a] < keep[b]);
        }
    }
}

/// The position of the user with id `id`; meaningful where `has_user` holds.
pub open spec fn user_index(s: DBState, id: Id) -> int {
    choose|j: int| 0 <= j < s.users.len() && #[trigger] s.users[j].id == id
}

/// The user with id `id`, if there is one.
pub open spec fn user_by_id(s: DBState, id: Id) -> Option<UserView> {
    if has_user(s.users, id) {
        Some(s.users[user_index(s, id)])
    } else {
        None
    }
}

/// The user registered with `email`, if there is one.
pub open spec fn user_by_email(s: DBState, email: Seq<char>) -> Option<UserView> {
    if email_taken(s.users, email) {
        Some(s.users[choose|j: int| 0 <= j < s.users.len() && #[trigger] s.users[j].email == email])
    } else {
        None
    }
}

/// The earliest registered user called `name`, if there is one: names are
/// not unique.
pub open spec fn user_by_name(s: DBState, name: Seq<char>) -> Option<UserView> {
    if exists|j: int| 0 <= j < s.users.len() && #[trigger] s.users[j].name == name {
        Some(
            s.users[choose|j: int|
                0 <= j < s.users.len() && #[trigger] s.users[j].name == name && forall|k: int|
                    0 <= k < j ==> s.users[k].name != name],
        )
    } else {
        None
    }
}

pub open spec fn user_view_of(o: Option<User>) -> Option<UserView> {
    match o {
        Some(u) => Some(u@),
        None => None,
    }
}

/// Whether `u` is offered to `requester` by a search with `pattern`: its
/// email matches, it has enrolled a public key, and it is someone else.
pub open spec fn eligible(u: UserView, requester: Id, pattern: Seq<char>) -> bool {
    like(pattern, u.email) && u.public_key is Some && u.id != requester
}

/// The users that a search by `requester` with `pattern` returns, in the
/// order in which they registered.
pub open spec fn search_hits(s: DBState, requester: Id, pattern: Seq<char>) -> Seq<UserView> {
    s.users.filter(|u: UserView| eligible(u, requester, pattern))
}

pub open spec fn user_views(v: Seq<User>) -> Seq<UserView> {
    v.map_values(|u: User| u@)
}

/// `s` with the user at position `j` replaced by `u`.
pub open spec fn with_user(s: DBState, j: int, u: UserView) -> DBState {
    DBState { users: s.users.update(j, u), files: s.files, links: s.links }
}

proof fn lemma_with_user_wf(s: DBState, j: int, u: UserView)
    requires
        s.wf(),
        0 <= j < s.users.len(),
        u.id == s.users[j].id,
        u.email == s.users[j].email,
    ensures
        with_user(s, j, u).wf(),
{
    let t = with_user(s, j, u);
    assert forall|i: int| 0 <= i < t.links.len() implies has_user(
        t.users,
        #[trigger] t.links[i].recipient_user_id,
    ) by {
        let k = choose|k: int| 0 <= k < s.users.len() && #[trigger] s.users[k].id == s.links[i].recipient_user_id;
        assert(t.users[k].id == s.users[k].id);
    }
    assert forall|i: int| 0 <= i < t.files.len() implies (#[trigger] t.files[i].user_id) is Some
        && has_user(t.users, t.files[i].user_id->0) by {
        assert(s.files[i].user_id is Some);
        let k = choose|k: int| 0 <= k < s.users.len() && #[trigger] s.users[k].id == s.files[i].user_id->0;
        assert(t.users[k].id == s.users[k].id);
    }
}

/// The persistence gateway: sole owner of the users, files and shared links.
pub struct DBClient {
    users: Vec<User>,
    files: Vec<File>,
    links: Vec<ShareLink>,
}

impl View for DBClient {
    type V = DBState;

    closed spec fn view(&self) -> DBState {
        DBState {
            users: self.users@.map_values(|u: User| u@),
            files: self.files@.map_values(|f: File| f@),
            links: self.links@.map_values(|l: ShareLink| l@),
        }
    }
}

impl DBClient {
    /// An empty store.
    pub fn new() -> (r: DBClient)
        ensures
            r@.wf(),
            r@.users.len() == 0,
            r@.files.len() == 0,
            r@.links.len() == 0,
    {
        DBClient { users: Vec::new(), files: Vec::new(), links: Vec::new() }
    }

    fn user_position(&self, id: Id) -> (r: Option<usize>)
        ensures
            r is Some <==> has_user(self@.users, id),
            r is Some ==> r->0 < self@.users.len() && self@.users[r->0 as int].id == id,
    {
        let mut i: usize = 0;
        while i < self.users.len()
            invariant
                0 <= i <= self.users@.len(),
                forall|j: int| 0 <= j < i ==> #[trigger] self@.users[j].id != id,
            decreases self.users@.len() - i,
        {
            if self.users[i].id == id {
                assert(self@.users[i as int].id == id);
                return Some(i);
            }
            i = i + 1;
        }
        None
    }

    fn file_position(&self, id: Id) -> (r: Option<usize>)
        ensures
            r is Some <==> file_id_taken(self@.files, id),
            r is Some ==> r->0 < self@.files.len() && self@.files[r->0 as int].id == id,
    {
        let mut i: usize = 0;
        while i < self.files.len()
            invariant
                0 <= i <= self.files@.len(),
                forall|j: int| 0 <= j < i ==> #[trigger] self@.files[j].id != id,
            decreases self.files@.len() - i,
        {
            if self.files[i].id == id {
                assert(self@.files[i as int].id == id);
                return Some(i);
            }
            i = i + 1;
        }
        None
    }

    fn link_id_in_use(&self, id: Id) -> (r: bool)
        ensures
            r == link_id_taken(self@.links, id),
    {
        let mut i: usize = 0;
        while i < self.links.len()
            invariant
                0 <= i <= self.links@.len(),
                forall|j: int| 0 <= j < i ==> #[trigger] self@.links[j].id != id,
            decreases self.links@.len() - i,
        {
            if self.links[i].id == id {
                assert(self@.links[i as int].id == id);
                return true;
            }
            i = i + 1;
        }
        false
    }

    fn stamp_for(&self, now: Timestamp) -> (r: Timestamp)
        ensures
            r == next_stamp(self@, now),
    {
        let n = self.links.len();
        if n > 0 && self.links[n - 1].created_at.micros > now.micros {
            self.links[n - 1].created_at
        } else {
            now
        }
    }

    /// Stores an encrypted file together with the shared link that grants it
    /// to `recipient_user_id`, as one unit: either both records are written
    /// or neither is.  All the checks that either write depends on are made
    /// before anything is written, so a refused link leaves no file behind.
    /// Returns the id of the new link.
    pub fn save_encrypted_file(
        &mut self,
        user_id: Id,
        file_name: String,
        file_size: i64,
        recipient_user_id: Id,
        password: String,
        expiration_date: Timestamp,
        encrypted_aes_key: Vec<u8>,
        encrypted_file: Vec<u8>,
        iv: Vec<u8>,
        file_id: Id,
        link_id: Id,
        now: Timestamp,
    ) -> (r: Result<Id, StoreError>)
        requires
            old(self)@.wf(),
        ensures
            final(self)@.wf(),
            r is Ok == upload_allowed(old(self)@, user_id, recipient_user_id, file_id, link_id),
            r is Ok ==> r->Ok_0 == link_id && final(self)@ == stored(
                old(self)@,
                user_id,
                file_name@,
                file_size,
                recipient_user_id,
                password@,
                expiration_date,
                encrypted_aes_key@,
                encrypted_file@,
                iv@,
                file_id,
                link_id,
                now,
            ),
            r is Err ==> r->Err_0 == StoreError::TransactionFailure && final(self)@ == old(self)@,
    {
        if self.user_position(user_id).is_none() || self.user_position(recipient_user_id).is_none()
            || self.file_position(file_id).is_some() || self.link_id_in_use(link_id) {
            return Err(StoreError::TransactionFailure);
        }
        let stamp = self.stamp_for(now);
        let ghost before = self@;
        let file = File {
            id: file_id,
            user_id: Some(user_id),
            file_name,
            file_size,
            encrypted_aes_key,
            encrypted_file,
            iv,
            created_at: stamp,
        };
        let link = ShareLink {
            id: link_id,
            file_id,
            recipient_user_id,
            password,
            expiration_date,
            created_at: stamp,
        };
        self.files.push(file);
        self.links.push(link);
        proof {
            let goal = stored(
                before,
                user_id,
                file_name@,
                file_size,
                recipient_user_id,
                password@,
                expiration_date,
                encrypted_aes_key@,
                encrypted_file@,
                iv@,
                file_id,
                link_id,
                now,
            );
            assert(self@.users =~= goal.users);
            assert(self@.files =~= goal.files);
            assert(self@.links =~= goal.links);
            let s = self@;
            assert forall|i: int| 0 <= i < s.links.len() implies has_user(
                s.users,
                #[trigger] s.links[i].recipient_user_id,
            ) by {
                if i < before.links.len() {
                    assert(s.links[i] == before.links[i]);
                }
            }
            assert forall|i: int| 0 <= i < s.files.len() implies (#[trigger] s.files[i].user_id) is Some
                && has_user(s.users, s.files[i].user_id->0) by {
                if i < before.files.len() {
                    assert(s.files[i] == before.files[i]);
                }
            }
        }
        Ok(link_id)
    }

    /// The shared link `shared_id`, provided it is addressed to `user_id`
    /// and expires strictly after `now`.  A link that does not exist, one
    /// addressed to someone else and one that has expired all give the same
    /// absent result.
    pub fn get_shared(&self, shared_id: Id, user_id: Id, now: Timestamp) -> (r: Option<ShareLink>)
        requires
            self@.wf(),
        ensures
            link_view_of(r) == shared_for(self@, shared_id, user_id, now),
    {
        let mut i: usize = 0;
        while i < self.links.len()
            invariant
                self@.wf(),
                0 <= i <= self.links@.len(),
                forall|j: int| 0 <= j < i ==> !grants(#[trigger] self@.links[j], shared_id, user_id, now),
            decreases self.links@.len() - i,
        {
            let l = &self.links[i];
            if l.id == shared_id && l.recipient_user_id == user_id && l.expiration_date.micros
                > now.micros {
                let r = l.duplicate();
                proof {
                    let s = self@;
                    assert(grants(s.links[i as int], shared_id, user_id, now));
                    let k = choose|k: int|
                        0 <= k < s.links.len() && grants(#[trigger] s.links[k], shared_id, user_id, now);
                    assert(k == i) by {
                        if k < i {
                            assert(s.links[k].id != s.links[i as int].id);
                        } else if k > i {
                            assert(s.links[i as int].id != s.links[k].id);
                        }
                    }
                }
                return Some(r);
            }
            i = i + 1;
        }
        None
    }

    /// The file `file_id`, if it exists.
    pub fn get_file(&self, file_id: Id) -> (r: Option<File>)
        requires
            self@.wf(),
        ensures
            file_view_of(r) == file_for(self@, file_id),
    {
        match self.file_position(file_id) {
            Some(i) => {
                let r = self.files[i].duplicate();
                proof {
                    let s = self@;
                    let k = choose|k: int| 0 <= k < s.files.len() && #[trigger] s.files[k].id == file_id;
                    assert(k == i) by {
                        if k < i {
                            assert(s.files[k].id != s.files[i as int].id);
                        } else if k > i {
                            assert(s.files[i as int].id != s.files[k].id);
                        }
                    }
                }
                Some(r)
            },
            None => None,
        }
    }

    fn on_page_exec(k: usize, page: u32, limit: usize) -> (r: bool)
        requires
            page >= 1,
        ensures
            r == on_page(k as int, page as int, limit as int),
    {
        if limit == 0 {
            false
        } else {
            proof {
                lemma_on_page_div(k as int, limit as int, page - 1);
            }
            (k / limit) as u64 == (page - 1) as u64
        }
    }

    /// Page `page` (numbered from 1) of `limit` items of what `user_id` has
    /// sent, most recent first, and the number of such items over all pages.
    /// Page 0 is refused.
    pub fn get_sent_files(&self, user_id: Id, page: u32, limit: usize) -> (r: Result<
        (Vec<SendFileDetails>, usize),
        StoreError,
    >)
        requires
            self@.wf(),
        ensures
            r is Err <==> page == 0,
            r is Err ==> r->Err_0 == StoreError::InvalidPage,
            r is Ok ==> sent_views(r->Ok_0.0@) == sent_page(self@, user_id, page as int, limit as int)
                && r->Ok_0.1 == sent_positions(self@, user_id).len(),
    {
        if page == 0 {
            return Err(StoreError::InvalidPage);
        }
        let ghost s = self@;
        let ghost pred = sent_by(s, user_id);
        let ghost start = (page - 1) * limit;
        let n = self.links.len();
        let mut out: Vec<SendFileDetails> = Vec::new();
        let mut k: usize = 0;
        let mut i: usize = n;
        while i > 0
            invariant
                s == self@,
                s.wf(),
                pred == sent_by(s, user_id),
                n == s.links.len(),
                page >= 1,
                start == (page - 1) * limit,
                0 <= i <= n,
                k as int == positions_where(pred, i as int, n as int).len(),
                k <= n - i,
                sent_views(out@) =~= gathered(
                    positions_where(pred, i as int, n as int),
                    k as int,
                    page as int,
                    limit as int,
                ).map_values(|p: int| sent_row(s, p)),
            decreases i,
        {
            i = i - 1;
            let ghost prev = positions_where(pred, i as int + 1, n as int);
            assert(s.files[i as int] == self.files[i as int]@);
            if self.files[i].user_id == Some(user_id) {
                assert(positions_where(pred, i as int, n as int) == prev.push(i as int));
                if Self::on_page_exec(k, page, limit) {
                    assert(s.links[i as int] == self.links[i as int]@);
                    assert(has_user(s.users, s.links[i as int].recipient_user_id));
                    let j = self.user_position(self.links[i].recipient_user_id).unwrap();
                    proof {
                        assert(s.users[j as int] == self.users[j as int]@);
                        lemma_user_email(s, j as int, s.links[i as int].recipient_user_id);
                    }
                    let row = SendFileDetails {
                        file_id: self.files[i].id,
                        file_name: self.files[i].file_name.clone(),
                        recipient_email: self.users[j].email.clone(),
                        expiration_date: self.links[i].expiration_date,
                        created_at: self.links[i].created_at,
                    };
                    let ghost old_out = out@;
                    out.push(row);
                    proof {
                        let cur = prev.push(i as int);
                        assert(gathered(cur, k as int + 1, page as int, limit as int) =~= gathered(
                            prev,
                            k as int,
                            page as int,
                            limit as int,
                        ).push(i as int));
                        assert(sent_views(out@) =~= sent_views(old_out).push(row@));
                    }
                } else {
                    let ghost cur = prev.push(i as int);
                    assert(gathered(cur, k as int + 1, page as int, limit as int) =~= gathered(
                        prev,
                        k as int,
                        page as int,
                        limit as int,
                    ));
                }
                k = k + 1;
            } else {
                assert(positions_where(pred, i as int, n as int) == prev);
            }
        }
        proof {
            let all = positions_where(pred, 0, n as int);
            assert(gathered(all, k as int, page as int, limit as int) =~= page_window(
                all,
                page as int,
                limit as int,
            ));
        }
        Ok((out, k))
    }

    /// Page `page` (numbered from 1) of `limit` items addressed to
    /// `user_id`, most recent first, and the number of such items over all pages.
    /// Page 0 is refused.
    pub fn get_receive_files(&self, user_id: Id, page: u32, limit: usize) -> (r: Result<
        (Vec<ReceiveFileDetails>, usize),
        StoreError,
    >)
        requires
            self@.wf(),
        ensures
            r is Err <==> page == 0,
            r is Err ==> r->Err_0 == StoreError::InvalidPage,
            r is Ok ==> received_views(r->Ok_0.0@) == received_page(self@, user_id, page as int, limit as int)
                && r->Ok_0.1 == received_positions(self@, user_id).len(),
    {
        if page == 0 {
            return Err(StoreError::InvalidPage);
        }
        let ghost s = self@;
        let ghost pred = received_by(s, user_id);
        let ghost start = (page - 1) * limit;
        let n = self.links.len();
        let mut out: Vec<ReceiveFileDetails> = Vec::new();
        let mut k: usize = 0;
        let mut i: usize = n;
        while i > 0
            invariant
                s == self@,
                s.wf(),
                pred == received_by(s, user_id),
                n == s.links.len(),
                page >= 1,
                start == (page - 1) * limit,
                0 <= i <= n,
                k as int == positions_where(pred, i as int, n as int).len(),
                k <= n - i,
                received_views(out@) =~= gathered(
                    positions_where(pred, i as int, n as int),
                    k as int,
                    page as int,
                    limit as int,
                ).map_values(|p: int| received_row(s, p)),
            decreases i,
        {
            i = i - 1;
            let ghost prev = positions_where(pred, i as int + 1, n as int);
            assert(s.links[i as int] == self.links[i as int]@);
            if self.links[i].recipient_user_id == user_id {
                assert(positions_where(pred, i as int, n as int) == prev.push(i as int));
                if Self::on_page_exec(k, page, limit) {
                    assert(s.files[i as int] == self.files[i as int]@);
                    assert(s.files[i as int].user_id is Some && has_user(s.users, s.files[i as int].user_id->0));
                    let owner = self.files[i].user_id.unwrap();
                    assert(has_user(s.users, owner));
                    let j = self.user_position(owner).unwrap();
                    proof {
                        assert(s.users[j as int] == self.users[j as int]@);
                        lemma_user_email(s, j as int, owner);
                    }
                    let row = ReceiveFileDetails {
                        file_id: self.links[i].id,
                        file_name: self.files[i].file_name.clone(),
                        sender_email: self.users[j].email.clone(),
                        expiration_date: self.links[i].expiration_date,
                        created_at: self.links[i].created_at,
                    };
                    let ghost old_out = out@;
                    out.push(row);
                    proof {
                        let cur = prev.push(i as int);
                        assert(gathered(cur, k as int + 1, page as int, limit as int) =~= gathered(
                            prev,
                            k as int,
                            page as int,
                            limit as int,
                        ).push(i as int));
                        assert(received_views(out@) =~= received_views(old_out).push(row@));
                    }
                } else {
                    let ghost cur = prev.push(i as int);
                    assert(gathered(cur, k as int + 1, page as int, limit as int) =~= gathered(
                        prev,
                        k as int,
                        page as int,
                        limit as int,
                    ));
                }
                k = k + 1;
            } else {
                assert(positions_where(pred, i as int, n as int) == prev);
            }
        }
        proof {
            let all = positions_where(pred, 0, n as int);
            assert(gathered(all, k as int, page as int, limit as int) =~= page_window(
                all,
                page as int,
                limit as int,
            ));
        }
        Ok((out, k))
    }

    /// Removes every shared link that expired before `now`, and the file
    /// that each of them referred to.  Links are taken out before their
    /// files, so no link is ever left referring to a missing file; running
    /// the sweep again at the same time changes nothing.  Returns the number
    /// of links removed.
    pub fn delete_expired_files(&mut self, now: Timestamp) -> (r: usize)
        requires
            old(self)@.wf(),
        ensures
            final(self)@.wf(),
            final(self)@ == swept(old(self)@, now),
            r == old(self)@.links.len() - final(self)@.links.len(),
    {
        let ghost orig = self@;
        let n = self.links.len();
        let mut j: usize = n;
        proof {
            lemma_live_positions(orig.links, now, 0, n as int);
        }
        while j > 0
            invariant
                0 <= j <= n,
                n == orig.links.len(),
                orig.wf(),
                self@.users == orig.users,
                self@.links.len() == j + live_positions(orig.links, now, j as int, n as int).len(),
                self@.files.len() == self@.links.len(),
                forall|k: int| 0 <= k < j ==> #[trigger] self@.links[k] == orig.links[k],
                forall|k: int| 0 <= k < j ==> #[trigger] self@.files[k] == orig.files[k],
                forall|k: int|
                    0 <= k < live_positions(orig.links, now, j as int, n as int).len()
                        ==> self@.links[j + k] == orig.links[live_positions(
                        orig.links,
                        now,
                        j as int,
                        n as int,
                    )[k]] && self@.files[j + k] == orig.files[live_positions(
                        orig.links,
                        now,
                        j as int,
                        n as int,
                    )[k]],
            decreases j,
        {
            j = j - 1;
            let ghost before = self@;
            let ghost rest = live_positions(orig.links, now, j as int + 1, n as int);
            assert(self@.links[j as int] == self.links[j as int]@);
            if self.links[j].expiration_date.micros < now.micros {
                let _gone_link = self.links.remove(j);
                let _gone_file = self.files.remove(j);
                assert(self@.links =~= before.links.remove(j as int));
                assert(self@.files =~= before.files.remove(j as int));
                assert(self@.users =~= before.users);
            } else {
                let ghost cur = seq![j as int] + rest;
                assert(live_positions(orig.links, now, j as int, n as int) == cur);
                assert forall|k: int| 0 <= k < cur.len() implies self@.links[j + k] == orig.links[cur[k]]
                    && self@.files[j + k] == orig.files[cur[k]] by {
                    if k > 0 {
                        assert(cur[k] == rest[k - 1]);
                    }
                }
            }
        }
        proof {
            let t = swept(orig, now);
            assert(self@.links =~= t.links);
            assert(self@.files =~= t.files);
            lemma_swept_wf(orig, now);
        }
        n - self.links.len()
    }

    fn email_position(&self, email: &String) -> (r: Option<usize>)
        ensures
            r is Some <==> email_taken(self@.users, email@),
            r is Some ==> r->0 < self@.users.len() && self@.users[r->0 as int].email == email@,
    {
        let mut i: usize = 0;
        while i < self.users.len()
            invariant
                0 <= i <= self.users@.len(),
                forall|j: int| 0 <= j < i ==> #[trigger] self@.users[j].email != email@,
            decreases self.users@.len() - i,
        {
            if self.users[i].email == *email {
                assert(self@.users[i as int].email == email@);
                return Some(i);
            }
            i = i + 1;
        }
        None
    }

    /// Registers a user with no public key, created and updated at `now`.
    /// Refused with `Conflict` if the email or the id is already in use.
    pub fn save_user(
        &mut self,
        id: Id,
        name: String,
        email: String,
        password: String,
        now: Timestamp,
    ) -> (r: Result<User, StoreError>)
        requires
            old(self)@.wf(),
        ensures
            final(self)@.wf(),
            r is Ok == !(email_taken(old(self)@.users, email@) || has_user(old(self)@.users, id)),
            r is Err ==> r->Err_0 == StoreError::Conflict && final(self)@ == old(self)@,
            r is Ok ==> ({
                let u = UserView {
                    id,
                    name: name@,
                    email: email@,
                    password: password@,
                    public_key: None,
                    created_at: now,
                    updated_at: now,
                };
                &&& r->Ok_0@ == u
                &&& final(self)@ == DBState { users: old(self)@.users.push(u), ..old(self)@ }
            }),
    {
        if self.email_position(&email).is_some() || self.user_position(id).is_some() {
            return Err(StoreError::Conflict);
        }
        let ghost before = self@;
        let user = User { id, name, email, password, public_key: None, created_at: now, updated_at: now };
        let r = user.duplicate();
        self.users.push(user);
        proof {
            let s = self@;
            assert(s.users =~= before.users.push(user@));
            assert(s.files =~= before.files);
            assert(s.links =~= before.links);
            assert forall|i: int| 0 <= i < s.links.len() implies has_user(
                s.users,
                #[trigger] s.links[i].recipient_user_id,
            ) by {
                let k = choose|k: int|
                    0 <= k < before.users.len() && #[trigger] before.users[k].id
                        == s.links[i].recipient_user_id;
                assert(s.users[k] == before.users[k]);
            }
            assert forall|i: int| 0 <= i < s.files.len() implies (#[trigger] s.files[i].user_id) is Some
                && has_user(s.users, s.files[i].user_id->0) by {
                assert(before.files[i].user_id is Some);
                let k = choose|k: int|
                    0 <= k < before.users.len() && #[trigger] before.users[k].id
                        == s.files[i].user_id->0;
                assert(s.users[k] == before.users[k]);
            }
        }
        Ok(r)
    }

    /// The user with id `user_id`, if there is one.
    pub fn find_user_by_id(&self, user_id: Id) -> (r: Option<User>)
        requires
            self@.wf(),
        ensures
            user_view_of(r) == user_by_id(self@, user_id),
    {
        match self.user_position(user_id) {
            Some(j) => {
                proof {
                    let s = self@;
                    let k = user_index(s, user_id);
                    if k < j {
                        assert(s.users[k].id != s.users[j as int].id);
                    } else if k > j {
                        assert(s.users[j as int].id != s.users[k].id);
                    }
                }
                Some(self.users[j].duplicate())
            },
            None => None,
        }
    }

    /// The user registered with `email`, if there is one.
    pub fn find_user_by_email(&self, email: &str) -> (r: Option<User>)
        requires
            self@.wf(),
        ensures
            user_view_of(r) == user_by_email(self@, email@),
    {
        let key = email.to_owned();
        match self.email_position(&key) {
            Some(j) => {
                proof {
                    let s = self@;
                    let k = choose|k: int| 0 <= k < s.users.len() && #[trigger] s.users[k].email == email@;
                    if k < j {
                        assert(s.users[k].email != s.users[j as int].email);
                    } else if k > j {
                        assert(s.users[j as int].email != s.users[k].email);
                    }
                }
                Some(self.users[j].duplicate())
            },
            None => None,
        }
    }

    /// The earliest registered user called `name`, if there is one.
    pub fn find_user_by_name(&self, name: &str) -> (r: Option<User>)
        requires
            self@.wf(),
        ensures
            user_view_of(r) == user_by_name(self@, name@),
    {
        let key = name.to_owned();
        let mut i: usize = 0;
        while i < self.users.len()
            invariant
                0 <= i <= self.users@.len(),
                key@ == name@,
                forall|j: int| 0 <= j < i ==> #[trigger] self@.users[j].name != name@,
            decreases self.users@.len() - i,
        {
            if self.users[i].name == key {
                proof {
                    let s = self@;
                    assert(s.users[i as int].name == name@);
                    let k = choose|k: int|
                        0 <= k < s.users.len() && #[trigger] s.users[k].name == name@ && forall|m: int|
                            0 <= m < k ==> s.users[m].name != name@;
                    if k < i {
                    } else if k > i {
                        assert(s.users[i as int].name != name@);
                    }
                }
                return Some(self.users[i].duplicate());
            }
            i = i + 1;
        }
        None
    }

    /// The combined lookup: by id if one is given, else by name if one is
    /// given, else by email if one is given; absent if none is.
    pub fn get_user(&self, user_id: Option<Id>, name: Option<&str>, email: Option<&str>) -> (r: Option<User>)
        requires
            self@.wf(),
        ensures
            user_view_of(r) == match user_id {
                Some(id) => user_by_id(self@, id),
                None => match name {
                    Some(n) => user_by_name(self@, n@),
                    None => match email {
                        Some(e) => user_by_email(self@, e@),
                        None => None,
                    },
                },
            },
    {
        if let Some(id) = user_id {
            self.find_user_by_id(id)
        } else if let Some(n) = name {
            self.find_user_by_name(n)
        } else if let Some(e) = email {
            self.find_user_by_email(e)
        } else {
            None
        }
    }

    fn replace_user(&mut self, j: usize, u: User)
        requires
            old(self)@.wf(),
            j < old(self)@.users.len(),
            u@.id == old(self)@.users[j as int].id,
            u@.email == old(self)@.users[j as int].email,
        ensures
            final(self)@ == with_user(old(self)@, j as int, u@),
            final(self)@.wf(),
    {
        let ghost before = self@;
        self.users.set(j, u);
        proof {
            assert(self@.users =~= before.users.update(j as int, u@));
            assert(self@.files =~= before.files);
            assert(self@.links =~= before.links);
            lemma_with_user_wf(before, j as int, u@);
        }
    }

    /// Renames the user `user_id` and sets its update time to `now`.
    pub fn update_user_name(&mut self, user_id: Id, new_name: String, now: Timestamp) -> (r: Result<
        User,
        StoreError,
    >)
        requires
            old(self)@.wf(),
        ensures
            final(self)@.wf(),
            r is Ok == has_user(old(self)@.users, user_id),
            r is Err ==> r->Err_0 == StoreError::NotFound && final(self)@ == old(self)@,
            r is Ok ==> ({
                let j = user_index(old(self)@, user_id);
                let u = UserView { name: new_name@, updated_at: now, ..old(self)@.users[j] };
                &&& r->Ok_0@ == u
                &&& final(self)@ == with_user(old(self)@, j, u)
            }),
    {
        match self.user_position(user_id) {
            None => Err(StoreError::NotFound),
            Some(j) => {
                proof {
                    let s = self@;
                    let k = user_index(s, user_id);
                    if k < j {
                        assert(s.users[k].id != s.users[j as int].id);
                    } else if k > j {
                        assert(s.users[j as int].id != s.users[k].id);
                    }
                }
                let mut u = self.users[j].duplicate();
                u.name = new_name;
                u.updated_at = now;
                let r = u.duplicate();
                self.replace_user(j, u);
                Ok(r)
            },
        }
    }

    /// Replaces the credential hash of the user `user_id` and sets its
    /// update time to `now`.
    pub fn update_user_password(
        &mut self,
        user_id: Id,
        new_password: String,
        now: Timestamp,
    ) -> (r: Result<User, StoreError>)
        requires
            old(self)@.wf(),
        ensures
            final(self)@.wf(),
            r is Ok == has_user(old(self)@.users, user_id),
            r is Err ==> r->Err_0 == StoreError::NotFound && final(self)@ == old(self)@,
            r is Ok ==> ({
                let j = user_index(old(self)@, user_id);
                let u = UserView { password: new_password@, updated_at: now, ..old(self)@.users[j] };
                &&& r->Ok_0@ == u
                &&& final(self)@ == with_user(old(self)@, j, u)
            }),
    {
        match self.user_position(user_id) {
            None => Err(StoreError::NotFound),
            Some(j) => {
                proof {
                    let s = self@;
                    let k = user_index(s, user_id);
                    if k < j {
                        assert(s.users[k].id != s.users[j as int].id);
                    } else if k > j {
                        assert(s.users[j as int].id != s.users[k].id);
                    }
                }
                let mut u = self.users[j].duplicate();
                u.password = new_password;
                u.updated_at = now;
                let r = u.duplicate();
                self.replace_user(j, u);
                Ok(r)
            },
        }
    }

    /// Records the public key of the user `user_id`, which makes it an
    /// eligible recipient, and sets its update time to `now`.
    pub fn save_user_key(&mut self, user_id: Id, public_key: String, now: Timestamp) -> (r: Result<(), StoreError>)
        requires
            old(self)@.wf(),
        ensures
            final(self)@.wf(),
            r is Ok == has_user(old(self)@.users, user_id),
            r is Err ==> r->Err_0 == StoreError::NotFound && final(self)@ == old(self)@,
            r is Ok ==> ({
                let j = user_index(old(self)@, user_id);
                let u = UserView { public_key: Some(public_key@), updated_at: now, ..old(self)@.users[j] };
                final(self)@ == with_user(old(self)@, j, u)
            }),
    {
        match self.user_position(user_id) {
            None => Err(StoreError::NotFound),
            Some(j) => {
                proof {
                    let s = self@;
                    let k = user_index(s, user_id);
                    if k < j {
                        assert(s.users[k].id != s.users[j as int].id);
                    } else if k > j {
                        assert(s.users[j as int].id != s.users[k].id);
                    }
                }
                let mut u = self.users[j].duplicate();
                u.public_key = Some(public_key);
                u.updated_at = now;
                self.replace_user(j, u);
                Ok(())
            },
        }
    }

    /// The users, other than `user_id`, whose email matches the `LIKE`
    /// pattern `query` and who have enrolled a public key, in the order in
    /// which they registered.
    pub fn search_by_email(&self, user_id: Id, query: &str) -> (r: Vec<User>)
        requires
            self@.wf(),
        ensures
            user_views(r@) == search_hits(self@, user_id, query@),
    {
        let pattern = chars_of(query);
        let ghost s = self@;
        let ghost pred = |u: UserView| eligible(u, user_id, query@);
        let mut out: Vec<User> = Vec::new();
        let mut i: usize = 0;
        while i < self.users.len()
            invariant
                s == self@,
                pattern@ == query@,
                pred == (|u: UserView| eligible(u, user_id, query@)),
                0 <= i <= s.users.len(),
                user_views(out@) == s.users.subrange(0, i as int).filter(pred),
            decreases s.users.len() - i,
        {
            let u = &self.users[i];
            assert(s.users[i as int] == u@);
            let ghost prefix = s.users.subrange(0, i as int + 1);
            assert(prefix.drop_last() =~= s.users.subrange(0, i as int));
            proof {
                reveal(Seq::filter);
            }
            let mut hit = false;
            if u.public_key.is_some() && u.id != user_id {
                let email = chars_of(u.email.as_str());
                hit = like_match(&pattern, &email);
            }
            let ghost old_out = out@;
            if hit {
                out.push(u.duplicate());
                assert(user_views(out@) =~= user_views(old_out).push(u@));
            }
            i = i + 1;
        }
        assert(s.users.subrange(0, s.users.len() as int) =~= s.users);
        out
    }
}

} // verus!
