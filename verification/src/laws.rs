//! Laws the lifecycle operations obey, stated over the same store and
//! backend models that the operations' contracts use.

use vstd::prelude::*;

use crate::schedule::{earlier, later};
use crate::store::WsKey;

verus! {

/// A successful `create` reserves its key and its volume path: the store
/// then holds exactly the new expiration under the key and the backend a
/// writable volume at the path, so a second `create` of the same key
/// meets the conflict condition of `create`'s contract and changes
/// nothing.
pub proof fn lemma_create_reserves_key(
    m: Map<WsKey, i64>,
    b: Map<Seq<char>, bool>,
    k: WsKey,
    p: Seq<char>,
    target: i64,
)
    ensures
        m.insert(k, target).contains_key(k),
        m.insert(k, target)[k] == target,
        b.insert(p, false).contains_key(p),
        b.insert(p, false)[p] == false,
        forall|k2: WsKey| k2 != k ==> (#[trigger] m.insert(k, target).contains_key(k2)
            <==> m.contains_key(k2)),
{
}

/// Extending twice converges: whichever order the two calls run in, the
/// expiration becomes the latest of the old value and both targets — so
/// with both calls made at one `now`, `now` plus the larger duration —
/// and it never regresses below the old value or either target.  No
/// other key is touched.
pub proof fn lemma_extend_converges(m: Map<WsKey, i64>, k: WsKey, t1: i64, t2: i64)
    requires
        m.contains_key(k),
    ensures
        ({
            let once = m.insert(k, later(m[k], t1));
            let both = once.insert(k, later(once[k], t2));
            let once2 = m.insert(k, later(m[k], t2));
            let both2 = once2.insert(k, later(once2[k], t1));
            &&& both == both2
            &&& both[k] == later(m[k], later(t1, t2))
            &&& m[k] <= later(t1, t2) ==> both[k] == later(t1, t2)
            &&& both[k] >= m[k] && both[k] >= t1 && both[k] >= t2
            &&& forall|k2: WsKey| #[trigger] both.contains_key(k2) <==> m.contains_key(k2)
            &&& forall|k2: WsKey|
                k2 != k && #[trigger] m.contains_key(k2) ==> both[k2] == m[k2]
        }),
{
    let once = m.insert(k, later(m[k], t1));
    let both = once.insert(k, later(once[k], t2));
    let once2 = m.insert(k, later(m[k], t2));
    let both2 = once2.insert(k, later(once2[k], t1));
    assert(both =~= both2);
}

/// With both extensions granted at the same `now`, the later of the two
/// targets is `now` plus the larger duration in days.
pub proof fn lemma_later_target_of_same_now(now: i64, d1: i64, d2: i64)
    requires
        i64::MIN <= now + d1 * 86400 <= i64::MAX,
        i64::MIN <= now + d2 * 86400 <= i64::MAX,
    ensures
        later((now + d1 * 86400) as i64, (now + d2 * 86400) as i64) == (now + later(d1, d2) * 86400)
            as i64,
{
}

/// `expire` followed by `extend` restores the volume's writability and
/// touches only the targeted record and volume: the expiration becomes
/// the extension target unless the record already outlived it, the
/// volume's read-only flag ends up off, and every other record and
/// volume keeps its value.
pub proof fn lemma_expire_then_extend(
    m: Map<WsKey, i64>,
    b: Map<Seq<char>, bool>,
    k: WsKey,
    p: Seq<char>,
    t_exp: i64,
    t_ext: i64,
)
    requires
        m.contains_key(k),
        b.contains_key(p),
    ensures
        ({
            let m1 = m.insert(k, earlier(m[k], t_exp));
            let b1 = b.insert(p, true);
            let m2 = m1.insert(k, later(m1[k], t_ext));
            let b2 = b1.insert(p, false);
            &&& b2[p] == false
            &&& m2[k] == later(earlier(m[k], t_exp), t_ext)
            &&& earlier(m[k], t_exp) <= t_ext ==> m2[k] == t_ext
            &&& forall|k2: WsKey| #[trigger] m2.contains_key(k2) <==> m.contains_key(k2)
            &&& forall|k2: WsKey| k2 != k && #[trigger] m.contains_key(k2) ==> m2[k2] == m[k2]
            &&& forall|p2: Seq<char>| #[trigger] b2.contains_key(p2) <==> b.contains_key(p2)
            &&& forall|p2: Seq<char>| p2 != p && #[trigger] b.contains_key(p2) ==> b2[p2] == b[p2]
        }),
{
}

/// Once a sweep has removed a record, any later pass that — like `clean`
/// promises — only ever removes records cannot bring the key back: a
/// repeated sweep is a no-op for it.
pub proof fn lemma_clean_idempotent_for_removed(
    m1: Map<WsKey, i64>,
    m2: Map<WsKey, i64>,
    k: WsKey,
)
    requires
        !m1.contains_key(k),
        forall|k2: WsKey|
            #[trigger] m2.contains_key(k2) ==> m1.contains_key(k2) && m2[k2] == m1[k2],
    ensures
        !m2.contains_key(k),
{
}

} // verus!
