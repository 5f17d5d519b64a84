//! Properties that relate the store's operations to one another, stated over
//! the same spec functions that the operations' contracts use.
use vstd::math::min;
use vstd::prelude::*;

use crate::model::{FileRowView, FileView, Id, ShareLinkView, Timestamp, UserView};
use crate::store::{
    eligible, expired, file_for, file_id_taken, grants, lemma_live_positions,
    lemma_live_positions_all, link_id_taken, live_positions, next_stamp, page_window,
    positions_where, received_by, received_page, received_positions, received_row, search_hits,
    sent_by, sent_page, sent_positions, sent_row, shared_for, stored, swept, upload_allowed,
    DBState,
};

verus! {

/// Whether `rows` run from the most recent creation time down.
pub open spec fn newest_first(rows: Seq<FileRowView>) -> bool {
    forall|a: int, b: int|
        0 <= a < b < rows.len() ==> rows[a].created_at.micros >= rows[b].created_at.micros
}

/// An upload that the store accepts can be fetched back, by its recipient
/// and until it expires, through the returned link id; the link holds the
/// inputs, and the file it names holds the uploaded file.
pub proof fn lemma_store_then_fetch(
    s: DBState,
    user_id: Id,
    file_name: Seq<char>,
    file_size: i64,
    recipient_user_id: Id,
    password: Seq<char>,
    expiration_date: Timestamp,
    encrypted_aes_key: Seq<u8>,
    encrypted_file: Seq<u8>,
    iv: Seq<u8>,
    file_id: Id,
    link_id: Id,
    now: Timestamp,
    later: Timestamp,
)
    requires
        s.wf(),
        upload_allowed(s, user_id, recipient_user_id, file_id, link_id),
        later.micros < expiration_date.micros,
    ensures
        ({
            let t = stored(
                s,
                user_id,
                file_name,
                file_size,
                recipient_user_id,
                password,
                expiration_date,
                encrypted_aes_key,
                encrypted_file,
                iv,
                file_id,
                link_id,
                now,
            );
            &&& shared_for(t, link_id, recipient_user_id, later) == Some(
                ShareLinkView {
                    id: link_id,
                    file_id,
                    recipient_user_id,
                    password,
                    expiration_date,
                    created_at: next_stamp(s, now),
                },
            )
            &&& file_for(t, file_id) == Some(
                FileView {
                    id: file_id,
                    user_id: Some(user_id),
                    file_name,
                    file_size,
                    encrypted_aes_key,
                    encrypted_file,
                    iv,
                    created_at: next_stamp(s, now),
                },
            )
        }),
{
    let t = stored(
        s,
        user_id,
        file_name,
        file_size,
        recipient_user_id,
        password,
        expiration_date,
        encrypted_aes_key,
        encrypted_file,
        iv,
        file_id,
        link_id,
        now,
    );
    let n = s.links.len() as int;
    assert(grants(t.links[n], link_id, recipient_user_id, later));
    let k = choose|k: int|
        0 <= k < t.links.len() && grants(#[trigger] t.links[k], link_id, recipient_user_id, later);
    if k < n {
        assert(t.links[k] == s.links[k]);
        assert(link_id_taken(s.links, link_id));
    }
    assert(t.files[n].id == file_id);
    let f = choose|f: int| 0 <= f < t.files.len() && #[trigger] t.files[f].id == file_id;
    if f < n {
        assert(t.files[f] == s.files[f]);
        assert(file_id_taken(s.files, file_id));
    }
}

/// Whether some link refers to the file `file_id`.
pub open spec fn referenced(links: Seq<ShareLinkView>, file_id: Id) -> bool {
    exists|j: int| 0 <= j < links.len() && #[trigger] links[j].file_id == file_id
}

/// In every state the store can reach, files and shared links come in
/// pairs: each link's file exists, and each file is referred to by a link.
/// An upload that is refused changes nothing (see `save_encrypted_file`), so
/// no refused upload leaves half a pair behind.
pub proof fn lemma_files_and_links_paired(s: DBState)
    requires
        s.wf(),
    ensures
        forall|i: int|
            0 <= i < s.links.len() ==> file_for(s, #[trigger] s.links[i].file_id) is Some,
        forall|i: int| 0 <= i < s.files.len() ==> referenced(s.links, #[trigger] s.files[i].id),
{
    assert forall|i: int| 0 <= i < s.links.len() implies file_for(s, #[trigger] s.links[i].file_id) is Some by {
        assert(s.files[i].id == s.links[i].file_id);
    }
    assert forall|i: int| 0 <= i < s.files.len() implies referenced(s.links, #[trigger] s.files[i].id) by {
        assert(s.links[i].file_id == s.files[i].id);
    }
}

/// A fetch through a link id that names no link, through a link addressed
/// to someone else, or through a link that has expired, comes back absent:
/// the three cases cannot be told apart.
pub proof fn lemma_fetch_absent(s: DBState, shared_id: Id, user_id: Id, now: Timestamp)
    requires
        s.wf(),
        !link_id_taken(s.links, shared_id) || (exists|i: int|
            0 <= i < s.links.len() && #[trigger] s.links[i].id == shared_id
                && s.links[i].recipient_user_id != user_id) || (exists|i: int|
            0 <= i < s.links.len() && #[trigger] s.links[i].id == shared_id
                && s.links[i].expiration_date.micros <= now.micros),
    ensures
        shared_for(s, shared_id, user_id, now) is None,
{
    if exists|i: int| 0 <= i < s.links.len() && grants(#[trigger] s.links[i], shared_id, user_id, now) {
        let k = choose|i: int| 0 <= i < s.links.len() && grants(#[trigger] s.links[i], shared_id, user_id, now);
        assert(link_id_taken(s.links, shared_id));
        if exists|i: int|
            0 <= i < s.links.len() && #[trigger] s.links[i].id == shared_id
                && s.links[i].recipient_user_id != user_id {
            let b = choose|i: int|
                0 <= i < s.links.len() && #[trigger] s.links[i].id == shared_id
                    && s.links[i].recipient_user_id != user_id;
            if b < k {
                assert(s.links[b].id != s.links[k].id);
            } else if b > k {
                assert(s.links[k].id != s.links[b].id);
            }
        } else {
            let b = choose|i: int|
                0 <= i < s.links.len() && #[trigger] s.links[i].id == shared_id
                    && s.links[i].expiration_date.micros <= now.micros;
            if b < k {
                assert(s.links[b].id != s.links[k].id);
            } else if b > k {
                assert(s.links[k].id != s.links[b].id);
            }
        }
    }
}

proof fn lemma_positions_where(pred: spec_fn(int) -> bool, lo: int, hi: int)
    requires
        lo <= hi,
    ensures
        forall|k: int|
            0 <= k < positions_where(pred, lo, hi).len() ==> lo <= #[trigger] positions_where(
                pred,
                lo,
                hi,
            )[k] < hi && pred(positions_where(pred, lo, hi)[k]),
        forall|a: int, b: int|
            0 <= a < b < positions_where(pred, lo, hi).len() ==> positions_where(pred, lo, hi)[a]
                > positions_where(pred, lo, hi)[b],
    decreases hi - lo,
{
    if lo < hi {
        lemma_positions_where(pred, lo + 1, hi);
        let rest = positions_where(pred, lo + 1, hi);
        if pred(lo) {
            let cur = rest.push(lo);
            assert(cur == positions_where(pred, lo, hi));
            assert forall|k: int| 0 <= k < cur.len() implies lo <= #[trigger] cur[k] < hi && pred(cur[k]) by {
                if k < rest.len() {
                    assert(cur[k] == rest[k]);
                }
            }
            assert forall|a: int, b: int| 0 <= a < b < cur.len() implies cur[a] > cur[b] by {
                assert(cur[a] == rest[a]);
                if b < rest.len() {
                    assert(cur[b] == rest[b]);
                }
            }
        }
    }
}

/// The facts shared by both listings: the first page of `k` items holds
/// `min(N, k)` of the `N` matching items, a page that starts past the last
/// item is empty, and every page runs from the most recent creation time
/// down.
proof fn lemma_listing(s: DBState, pred: spec_fn(int) -> bool, row: spec_fn(int) -> FileRowView)
    requires
        s.wf(),
        forall|i: int| 0 <= i < s.links.len() ==> (#[trigger] row(i)).created_at == s.links[i].created_at,
    ensures
        ({
            let all = positions_where(pred, 0, s.links.len() as int);
            &&& forall|k: int|
                k >= 0 ==> #[trigger] page_window(all, 1, k).map_values(row).len() == min(
                    all.len() as int,
                    k,
                )
            &&& forall|page: int, limit: int|
                page >= 1 && limit >= 0 && (page - 1) * limit >= all.len() ==> #[trigger] page_window(
                    all,
                    page,
                    limit,
                ).map_values(row).len() == 0
            &&& forall|page: int, limit: int|
                page >= 1 && limit >= 0 ==> newest_first(
                    #[trigger] page_window(all, page, limit).map_values(row),
                )
        }),
{
    let n = s.links.len() as int;
    let all = positions_where(pred, 0, n);
    lemma_positions_where(pred, 0, n);
    assert forall|page: int, limit: int, a: int, b: int|
        page >= 1 && limit >= 0 && 0 <= a < b < page_window(all, page, limit).len()
        implies (#[trigger] page_window(all, page, limit).map_values(row)[a]).created_at.micros
        >= (#[trigger] page_window(all, page, limit).map_values(row)[b]).created_at.micros by {
        let start = (page - 1) * limit;
        assert(start >= 0) by (nonlinear_arith)
            requires
                page >= 1,
                limit >= 0,
                start == (page - 1) * limit,
        ;
        let lo = min(start, all.len() as int);
        let w = page_window(all, page, limit);
        assert(w[a] == all[lo + a]);
        assert(w[b] == all[lo + b]);
        assert(all[lo + a] > all[lo + b]);
        assert(row(all[lo + a]).created_at == s.links[all[lo + a]].created_at);
        assert(row(all[lo + b]).created_at == s.links[all[lo + b]].created_at);
    }
}

/// Sender's listing: the first page of `k` items holds `min(N, k)` of the
/// `N` uploads the user sent, a page past the last one is empty, and each
/// page is ordered from the most recent creation time down.  The total
/// reported with every page is `N` (see `get_sent_files`).
pub proof fn lemma_sent_listing(s: DBState, owner: Id)
    requires
        s.wf(),
    ensures
        forall|k: int|
            k >= 0 ==> #[trigger] sent_page(s, owner, 1, k).len() == min(
                sent_positions(s, owner).len() as int,
                k,
            ),
        forall|page: int, limit: int|
            page >= 1 && limit >= 0 && (page - 1) * limit >= sent_positions(s, owner).len()
                ==> #[trigger] sent_page(s, owner, page, limit).len() == 0,
        forall|page: int, limit: int|
            page >= 1 && limit >= 0 ==> newest_first(#[trigger] sent_page(s, owner, page, limit)),
{
    let row = |i: int| sent_row(s, i);
    lemma_listing(s, sent_by(s, owner), row);
    assert forall|page: int, limit: int| #![auto] sent_page(s, owner, page, limit) == page_window(
        sent_positions(s, owner),
        page,
        limit,
    ).map_values(row) by {}
}

/// Recipient's listing: the same facts as for the sender's, over the links
/// addressed to the user.
pub proof fn lemma_received_listing(s: DBState, recipient: Id)
    requires
        s.wf(),
    ensures
        forall|k: int|
            k >= 0 ==> #[trigger] received_page(s, recipient, 1, k).len() == min(
                received_positions(s, recipient).len() as int,
                k,
            ),
        forall|page: int, limit: int|
            page >= 1 && limit >= 0 && (page - 1) * limit >= received_positions(s, recipient).len()
                ==> #[trigger] received_page(s, recipient, page, limit).len() == 0,
        forall|page: int, limit: int|
            page >= 1 && limit >= 0 ==> newest_first(#[trigger] received_page(s, recipient, page, limit)),
{
    let row = |i: int| received_row(s, i);
    lemma_listing(s, received_by(s, recipient), row);
    assert forall|page: int, limit: int| #![auto] received_page(s, recipient, page, limit) == page_window(
        received_positions(s, recipient),
        page,
        limit,
    ).map_values(row) by {}
}

/// A sweep removes exactly the expired links and the files they refer to:
/// a link stays if and only if it has not expired, and so does its file.
pub proof fn lemma_sweep_effect(s: DBState, now: Timestamp)
    requires
        s.wf(),
    ensures
        forall|i: int|
            0 <= i < s.links.len() ==> (swept(s, now).links.contains(#[trigger] s.links[i])
                <==> !expired(s.links[i], now)),
        forall|i: int|
            0 <= i < s.links.len() ==> (file_id_taken(swept(s, now).files, #[trigger] s.links[i].file_id)
                <==> !expired(s.links[i], now)),
{
    let n = s.links.len() as int;
    let keep = live_positions(s.links, now, 0, n);
    let t = swept(s, now);
    lemma_live_positions(s.links, now, 0, n);
    assert forall|i: int| 0 <= i < n implies (t.links.contains(#[trigger] s.links[i]) <==> !expired(
        s.links[i],
        now,
    )) && (file_id_taken(t.files, s.links[i].file_id) <==> !expired(s.links[i], now)) by {
        if !expired(s.links[i], now) {
            assert(keep.contains(i));
            let k = choose|k: int| 0 <= k < keep.len() && keep[k] == i;
            assert(t.links[k] == s.links[i]);
            assert(t.files[k].id == s.links[i].file_id);
        } else {
            if t.links.contains(s.links[i]) {
                let k = choose|k: int| 0 <= k < t.links.len() && t.links[k] == s.links[i];
                assert(t.links[k] == s.links[keep[k]]);
            }
            if file_id_taken(t.files, s.links[i].file_id) {
                let k = choose|k: int| 0 <= k < t.files.len() && #[trigger] t.files[k].id == s.links[i].file_id;
                let p = keep[k];
                assert(t.files[k] == s.files[p]);
                assert(s.links[p].file_id == s.files[p].id);
                assert(s.links[i].file_id == s.files[i].id);
                if p < i {
                    assert(s.files[p].id != s.files[i].id);
                } else if p > i {
                    assert(s.files[i].id != s.files[p].id);
                }
            }
        }
    }
}

/// A sweep when no link has expired changes nothing.
pub proof fn lemma_sweep_nothing_expired(s: DBState, now: Timestamp)
    requires
        s.wf(),
        forall|i: int| 0 <= i < s.links.len() ==> !expired(#[trigger] s.links[i], now),
    ensures
        swept(s, now) == s,
{
    let n = s.links.len() as int;
    lemma_live_positions_all(s.links, now, 0, n);
    let t = swept(s, now);
    assert(t.links =~= s.links);
    assert(t.files =~= s.files);
}

/// Sweeping twice at the same time does no more than sweeping once.
pub proof fn lemma_sweep_idempotent(s: DBState, now: Timestamp)
    requires
        s.wf(),
    ensures
        swept(swept(s, now), now) == swept(s, now),
{
    let n = s.links.len() as int;
    let t = swept(s, now);
    lemma_live_positions(s.links, now, 0, n);
    let m = t.links.len() as int;
    assert forall|p: int| 0 <= p < m implies !expired(#[trigger] t.links[p], now) by {
        let keep = live_positions(s.links, now, 0, n);
        assert(t.links[p] == s.links[keep[p]]);
    }
    lemma_live_positions_all(t.links, now, 0, m);
    let u = swept(t, now);
    assert(u.links =~= t.links);
    assert(u.files =~= t.files);
}

/// A search never offers the requester, nor anyone without a public key,
/// whatever the pattern.
pub proof fn lemma_search_excludes(s: DBState, requester: Id, pattern: Seq<char>)
    ensures
        forall|k: int|
            0 <= k < search_hits(s, requester, pattern).len() ==> (#[trigger] search_hits(
                s,
                requester,
                pattern,
            )[k]).id != requester && search_hits(s, requester, pattern)[k].public_key is Some,
{
    let pred = |u: UserView| eligible(u, requester, pattern);
    let hits = search_hits(s, requester, pattern);
    assert forall|k: int| 0 <= k < hits.len() implies (#[trigger] hits[k]).id != requester
        && hits[k].public_key is Some by {
        s.users.lemma_filter_pred(pred, k);
    }
}

} // verus!
