//! Assembling the public key hierarchy served by the API from the rows of the
//! hierarchy query.
//!
//! Every row names one organization key and, possibly, one key of each lower
//! level below it.  A key is identified by its database id.  A key enters the
//! hierarchy the first time it is met with a verified signature, and only when
//! its parent key has already entered it.  Keys are deduplicated by id.
use vstd::prelude::*;

verus! {

/// What decoding and verifying one key column of a row gave.
#[derive(Clone, Copy, PartialEq, Eq, Structural, Debug)]
pub enum KeyCheck {
    /// The stored JSON does not decode into a key.
    Malformed,
    /// The key decoded; `verified` tells whether its signature checked out
    /// under the parent key named in the same row.
    Parsed { verified: bool },
}

/// One key column of a row: the key's id and its stored JSON, each possibly absent.
#[derive(Clone, Copy, PartialEq, Eq, Structural, Debug)]
pub struct KeyColumn {
    pub id: Option<i32>,
    pub json: Option<KeyCheck>,
}

/// One row of the hierarchy query, with each key reduced to its id and the
/// outcome of decoding and verifying it.
#[derive(Clone, Debug)]
pub struct HierarchyRow {
    pub org_pk_id: i32,
    pub org_pk: KeyCheck,
    pub covernode_provisioning_pk: KeyColumn,
    pub covernode_id: Option<String>,
    pub covernode_id_pk: KeyColumn,
    pub covernode_msg_pk: KeyColumn,
    pub journalist_provisioning_pk: KeyColumn,
    pub journalist_id: Option<String>,
    pub journalist_id_pk: KeyColumn,
    pub journalist_msg_pk: KeyColumn,
    pub backup_id_pk: KeyColumn,
    pub backup_msg_pk: KeyColumn,
    pub max_epoch: Option<i32>,
}

/// The mathematical content of a row.
pub struct RowView {
    pub org_pk_id: i32,
    pub org_pk: KeyCheck,
    pub cn_prov: KeyColumn,
    pub cn_name: Option<Seq<char>>,
    pub cn_id: KeyColumn,
    pub cn_msg: KeyColumn,
    pub j_prov: KeyColumn,
    pub j_name: Option<Seq<char>>,
    pub j_id: KeyColumn,
    pub j_msg: KeyColumn,
    pub backup_id: KeyColumn,
    pub backup_msg: KeyColumn,
    pub max_epoch: Option<i32>,
}

pub open spec fn opt_string_view(s: Option<String>) -> Option<Seq<char>> {
    match s {
        Some(v) => Some(v@),
        None => None,
    }
}

impl View for HierarchyRow {
    type V = RowView;

    open spec fn view(&self) -> RowView {
        RowView {
            org_pk_id: self.org_pk_id,
            org_pk: self.org_pk,
            cn_prov: self.covernode_provisioning_pk,
            cn_name: opt_string_view(self.covernode_id),
            cn_id: self.covernode_id_pk,
            cn_msg: self.covernode_msg_pk,
            j_prov: self.journalist_provisioning_pk,
            j_name: opt_string_view(self.journalist_id),
            j_id: self.journalist_id_pk,
            j_msg: self.journalist_msg_pk,
            backup_id: self.backup_id_pk,
            backup_msg: self.backup_msg_pk,
            max_epoch: self.max_epoch,
        }
    }
}

/// The keys admitted so far, each list in the order of admission.  Child
/// lists hold `(key id, parent key id)`; name lists hold `(identity key id, identity)`.
#[verifier::ext_equal]
pub struct HierarchyState {
    pub epoch: i32,
    pub orgs: Seq<i32>,
    pub cn_prov: Seq<(i32, i32)>,
    pub cn_id: Seq<(i32, i32)>,
    pub cn_msg: Seq<(i32, i32)>,
    pub cn_names: Seq<(i32, Seq<char>)>,
    pub j_prov: Seq<(i32, i32)>,
    pub j_id: Seq<(i32, i32)>,
    pub j_msg: Seq<(i32, i32)>,
    pub j_names: Seq<(i32, Seq<char>)>,
    pub backup_id: Seq<(i32, i32)>,
    pub backup_msg: Seq<(i32, i32)>,
}

/// Whether a key list holds an entry for `id`.
pub open spec fn has_key<V>(s: Seq<(i32, V)>, id: i32) -> bool {
    exists|i: int| 0 <= i < s.len() && #[trigger] s[i].0 == id
}

/// No two entries of a key list share an id.
pub open spec fn keys_unique<V>(s: Seq<(i32, V)>) -> bool {
    forall|i: int, j: int| 0 <= i < j < s.len() ==> #[trigger] s[i].0 != #[trigger] s[j].0
}

/// `i` is the first position of a key list holding `id`.
pub open spec fn is_first_match<V>(s: Seq<(i32, V)>, id: i32, i: int) -> bool {
    &&& 0 <= i < s.len()
    &&& s[i].0 == id
    &&& forall|k: int| 0 <= k < i ==> #[trigger] s[k].0 != id
}

/// The identity first recorded for identity key `id`, if any.
pub open spec fn name_of(s: Seq<(i32, Seq<char>)>, id: i32) -> Option<Seq<char>> {
    if exists|i: int| is_first_match(s, id, i) {
        Some(s[choose|i: int| is_first_match(s, id, i)].1)
    } else {
        None
    }
}

/// The empty state, before any row.
pub open spec fn initial_state() -> HierarchyState {
    HierarchyState {
        epoch: 0,
        orgs: seq![],
        cn_prov: seq![],
        cn_id: seq![],
        cn_msg: seq![],
        cn_names: seq![],
        j_prov: seq![],
        j_id: seq![],
        j_msg: seq![],
        j_names: seq![],
        backup_id: seq![],
        backup_msg: seq![],
    }
}

/// Offering key `id` (child of `parent`) to a child list: an id already present
/// is left alone; otherwise a malformed key is an error, and a decoded key is
/// added when it verified and its parent is present.
pub open spec fn offer_key(
    list: Seq<(i32, i32)>,
    id: i32,
    check: KeyCheck,
    parent_present: bool,
    parent: i32,
) -> Option<Seq<(i32, i32)>> {
    if has_key(list, id) {
        Some(list)
    } else {
        match check {
            KeyCheck::Malformed => None,
            KeyCheck::Parsed { verified } => if verified && parent_present {
                Some(list.push((id, parent)))
            } else {
                Some(list)
            },
        }
    }
}

/// Recording the identity of identity key `id`, unless one is recorded already.
pub open spec fn record_name(
    names: Seq<(i32, Seq<char>)>,
    id: i32,
    name: Option<Seq<char>>,
) -> Seq<(i32, Seq<char>)> {
    match name {
        Some(n) => if has_key(names, id) {
            names
        } else {
            names.push((id, n))
        },
        None => names,
    }
}

/// The epoch after a row: the larger of the current one and the row's.
pub open spec fn next_epoch(epoch: i32, row_epoch: Option<i32>) -> i32 {
    match row_epoch {
        Some(e) => if e > epoch {
            e
        } else {
            epoch
        },
        None => epoch,
    }
}

/// The CoverNode messaging key of a row, below identity key `kid`.
pub open spec fn step_cn_msg(s: HierarchyState, r: RowView, kid: i32) -> Option<HierarchyState> {
    match (r.cn_msg.id, r.cn_msg.json) {
        (Some(mid), Some(mc)) => match offer_key(s.cn_msg, mid, mc, has_key(s.cn_id, kid), kid) {
            Some(l) => Some(HierarchyState { cn_msg: l, ..s }),
            None => None,
        },
        _ => Some(s),
    }
}

/// The CoverNode identity and messaging keys of a row, below provisioning key `pid`.
pub open spec fn step_cn_id(s: HierarchyState, r: RowView, pid: i32) -> Option<HierarchyState> {
    match r.cn_id.id {
        None => Some(s),
        Some(kid) => {
            let s1 = HierarchyState { cn_names: record_name(s.cn_names, kid, r.cn_name), ..s };
            let s2 = match r.cn_id.json {
                None => Some(s1),
                Some(kc) => match offer_key(s1.cn_id, kid, kc, has_key(s1.cn_prov, pid), pid) {
                    Some(l) => Some(HierarchyState { cn_id: l, ..s1 }),
                    None => None,
                },
            };
            match s2 {
                Some(s3) => step_cn_msg(s3, r, kid),
                None => None,
            }
        },
    }
}

/// The CoverNode side of a row.
pub open spec fn step_covernode(s: HierarchyState, r: RowView) -> Option<HierarchyState> {
    match (r.cn_prov.id, r.cn_prov.json) {
        (Some(pid), Some(pc)) => match offer_key(
            s.cn_prov,
            pid,
            pc,
            s.orgs.contains(r.org_pk_id),
            r.org_pk_id,
        ) {
            Some(l) => step_cn_id(HierarchyState { cn_prov: l, ..s }, r, pid),
            None => None,
        },
        _ => Some(s),
    }
}

/// The journalist messaging key of a row, below identity key `kid`.
pub open spec fn step_j_msg(s: HierarchyState, r: RowView, kid: i32) -> Option<HierarchyState> {
    match (r.j_msg.id, r.j_msg.json) {
        (Some(mid), Some(mc)) => match offer_key(s.j_msg, mid, mc, has_key(s.j_id, kid), kid) {
            Some(l) => Some(HierarchyState { j_msg: l, ..s }),
            None => None,
        },
        _ => Some(s),
    }
}

/// The journalist identity and messaging keys of a row, below provisioning key `pid`.
pub open spec fn step_j_id(s: HierarchyState, r: RowView, pid: i32) -> Option<HierarchyState> {
    match r.j_id.id {
        None => Some(s),
        Some(kid) => {
            let s1 = HierarchyState { j_names: record_name(s.j_names, kid, r.j_name), ..s };
            let s2 = match r.j_id.json {
                None => Some(s1),
                Some(kc) => match offer_key(s1.j_id, kid, kc, has_key(s1.j_prov, pid), pid) {
                    Some(l) => Some(HierarchyState { j_id: l, ..s1 }),
                    None => None,
                },
            };
            match s2 {
                Some(s3) => step_j_msg(s3, r, kid),
                None => None,
            }
        },
    }
}

/// The journalist side of a row.  Unlike the CoverNode side, the identity
/// keys are looked at even when the provisioning key's JSON is absent.
pub open spec fn step_journalist(s: HierarchyState, r: RowView) -> Option<HierarchyState> {
    match r.j_prov.id {
        None => Some(s),
        Some(pid) => {
            let s1 = match r.j_prov.json {
                None => Some(s),
                Some(pc) => match offer_key(
                    s.j_prov,
                    pid,
                    pc,
                    s.orgs.contains(r.org_pk_id),
                    r.org_pk_id,
                ) {
                    Some(l) => Some(HierarchyState { j_prov: l, ..s }),
                    None => None,
                },
            };
            match s1 {
                Some(s2) => step_j_id(s2, r, pid),
                None => None,
            }
        },
    }
}

/// The backup keys of a row.
pub open spec fn step_backup(s: HierarchyState, r: RowView) -> Option<HierarchyState> {
    match (r.backup_id.id, r.backup_id.json) {
        (Some(bid), Some(bc)) => match offer_key(
            s.backup_id,
            bid,
            bc,
            s.orgs.contains(r.org_pk_id),
            r.org_pk_id,
        ) {
            Some(l) => {
                let s1 = HierarchyState { backup_id: l, ..s };
                match (r.backup_msg.id, r.backup_msg.json) {
                    (Some(mid), Some(mc)) => match offer_key(
                        s1.backup_msg,
                        mid,
                        mc,
                        has_key(s1.backup_id, bid),
                        bid,
                    ) {
                        Some(m) => Some(HierarchyState { backup_msg: m, ..s1 }),
                        None => None,
                    },
                    _ => Some(s1),
                }
            },
            None => None,
        },
        _ => Some(s),
    }
}

/// The organization key of a row.  `None` is an error; `Some((s, false))`
/// means the organization key was refused and the rest of the row is skipped.
pub open spec fn step_org(s: HierarchyState, r: RowView) -> Option<(HierarchyState, bool)> {
    if s.orgs.contains(r.org_pk_id) {
        Some((s, true))
    } else {
        match r.org_pk {
            KeyCheck::Malformed => None,
            KeyCheck::Parsed { verified } => if verified {
                Some((HierarchyState { orgs: s.orgs.push(r.org_pk_id), ..s }, true))
            } else {
                Some((s, false))
            },
        }
    }
}

/// The state after one more row, or `None` when the row holds a malformed key
/// that had to be decoded.
pub open spec fn step_row(s: HierarchyState, r: RowView) -> Option<HierarchyState> {
    let s0 = HierarchyState { epoch: next_epoch(s.epoch, r.max_epoch), ..s };
    match step_org(s0, r) {
        None => None,
        Some((s1, keep_going)) => if !keep_going {
            Some(s1)
        } else {
            match step_covernode(s1, r) {
                None => None,
                Some(s2) => match step_journalist(s2, r) {
                    None => None,
                    Some(s3) => step_backup(s3, r),
                },
            }
        },
    }
}

/// The state after all rows, in order; `None` on an error.
pub open spec fn process_rows(rows: Seq<RowView>) -> Option<HierarchyState>
    decreases rows.len(),
{
    if rows.len() == 0 {
        Some(initial_state())
    } else {
        match process_rows(rows.drop_last()) {
            Some(s) => step_row(s, rows.last()),
            None => None,
        }
    }
}


/// The mathematical content of a list of recorded identities.
pub open spec fn names_view(v: Seq<(i32, String)>) -> Seq<(i32, Seq<char>)> {
    v.map_values(|e: (i32, String)| (e.0, e.1@))
}

fn has_child(list: &Vec<(i32, i32)>, id: i32) -> (b: bool)
    ensures
        b == has_key(list@, id),
{
    let mut i: usize = 0;
    while i < list.len()
        invariant
            i <= list.len(),
            forall|j: int| 0 <= j < i ==> list@[j].0 != id,
        decreases list.len() - i,
    {
        if list[i].0 == id {
            return true;
        }
        i = i + 1;
    }
    false
}

fn has_name(list: &Vec<(i32, String)>, id: i32) -> (b: bool)
    ensures
        b == has_key(names_view(list@), id),
{
    let mut i: usize = 0;
    while i < list.len()
        invariant
            i <= list.len(),
            forall|j: int| 0 <= j < i ==> list@[j].0 != id,
        decreases list.len() - i,
    {
        if list[i].0 == id {
            assert(names_view(list@)[i as int].0 == id);
            return true;
        }
        i = i + 1;
    }
    assert forall|j: int| 0 <= j < names_view(list@).len() implies names_view(list@)[j].0 != id by {
        assert(names_view(list@)[j].0 == list@[j].0);
    }
    false
}

fn has_org(list: &Vec<i32>, id: i32) -> (b: bool)
    ensures
        b == list@.contains(id),
{
    let mut i: usize = 0;
    while i < list.len()
        invariant
            i <= list.len(),
            forall|j: int| 0 <= j < i ==> list@[j] != id,
        decreases list.len() - i,
    {
        if list[i] == id {
            return true;
        }
        i = i + 1;
    }
    false
}

/// Offers a key to a child list, as `offer_key` says; `false` means an error.
fn offer_key_exec(
    list: &mut Vec<(i32, i32)>,
    id: i32,
    check: KeyCheck,
    parent_present: bool,
    parent: i32,
) -> (ok: bool)
    ensures
        match offer_key(old(list)@, id, check, parent_present, parent) {
            Some(l) => ok && final(list)@ == l,
            None => !ok,
        },
{
    if has_child(list, id) {
        return true;
    }
    match check {
        KeyCheck::Malformed => false,
        KeyCheck::Parsed { verified } => {
            if verified && parent_present {
                list.push((id, parent));
            }
            true
        },
    }
}

fn record_name_exec(names: &mut Vec<(i32, String)>, id: i32, name: &Option<String>)
    ensures
        names_view(final(names)@) == record_name(names_view(old(names)@), id, opt_string_view(*name)),
{
    match name {
        Some(n) => {
            if !has_name(names, id) {
                let ghost before = names@;
                names.push((id, n.clone()));
                assert(names_view(names@) =~= names_view(before).push((id, n@)));
            }
        },
        None => {},
    }
}

/// The exec counterpart of `HierarchyState`.
struct HierarchyBuilder {
    epoch: i32,
    orgs: Vec<i32>,
    cn_prov: Vec<(i32, i32)>,
    cn_id: Vec<(i32, i32)>,
    cn_msg: Vec<(i32, i32)>,
    cn_names: Vec<(i32, String)>,
    j_prov: Vec<(i32, i32)>,
    j_id: Vec<(i32, i32)>,
    j_msg: Vec<(i32, i32)>,
    j_names: Vec<(i32, String)>,
    backup_id: Vec<(i32, i32)>,
    backup_msg: Vec<(i32, i32)>,
}

impl View for HierarchyBuilder {
    type V = HierarchyState;

    closed spec fn view(&self) -> HierarchyState {
        HierarchyState {
            epoch: self.epoch,
            orgs: self.orgs@,
            cn_prov: self.cn_prov@,
            cn_id: self.cn_id@,
            cn_msg: self.cn_msg@,
            cn_names: names_view(self.cn_names@),
            j_prov: self.j_prov@,
            j_id: self.j_id@,
            j_msg: self.j_msg@,
            j_names: names_view(self.j_names@),
            backup_id: self.backup_id@,
            backup_msg: self.backup_msg@,
        }
    }
}

impl HierarchyBuilder {
    fn new() -> (b: Self)
        ensures
            b@ =~= initial_state(),
    {
        let b = HierarchyBuilder {
            epoch: 0,
            orgs: Vec::new(),
            cn_prov: Vec::new(),
            cn_id: Vec::new(),
            cn_msg: Vec::new(),
            cn_names: Vec::new(),
            j_prov: Vec::new(),
            j_id: Vec::new(),
            j_msg: Vec::new(),
            j_names: Vec::new(),
            backup_id: Vec::new(),
            backup_msg: Vec::new(),
        };
        assert(names_view(b.cn_names@) =~= seq![]);
        assert(names_view(b.j_names@) =~= seq![]);
        b
    }

    fn covernode(&mut self, r: &HierarchyRow) -> (ok: bool)
        ensures
            match step_covernode(old(self)@, r@) {
                Some(s) => ok && final(self)@ =~= s,
                None => !ok,
            },
    {
        let (pid, pc) = match (r.covernode_provisioning_pk.id, r.covernode_provisioning_pk.json) {
            (Some(pid), Some(pc)) => (pid, pc),
            _ => return true,
        };
        let org_present = has_org(&self.orgs, r.org_pk_id);
        if !offer_key_exec(&mut self.cn_prov, pid, pc, org_present, r.org_pk_id) {
            return false;
        }
        let kid = match r.covernode_id_pk.id {
            Some(kid) => kid,
            None => return true,
        };
        record_name_exec(&mut self.cn_names, kid, &r.covernode_id);
        match r.covernode_id_pk.json {
            Some(kc) => {
                let prov_present = has_child(&self.cn_prov, pid);
                if !offer_key_exec(&mut self.cn_id, kid, kc, prov_present, pid) {
                    return false;
                }
            },
            None => {},
        }
        match (r.covernode_msg_pk.id, r.covernode_msg_pk.json) {
            (Some(mid), Some(mc)) => {
                let id_present = has_child(&self.cn_id, kid);
                offer_key_exec(&mut self.cn_msg, mid, mc, id_present, kid)
            },
            _ => true,
        }
    }

    fn journalist(&mut self, r: &HierarchyRow) -> (ok: bool)
        ensures
            match step_journalist(old(self)@, r@) {
                Some(s) => ok && final(self)@ =~= s,
                None => !ok,
            },
    {
        let pid = match r.journalist_provisioning_pk.id {
            Some(pid) => pid,
            None => return true,
        };
        match r.journalist_provisioning_pk.json {
            Some(pc) => {
                let org_present = has_org(&self.orgs, r.org_pk_id);
                if !offer_key_exec(&mut self.j_prov, pid, pc, org_present, r.org_pk_id) {
                    return false;
                }
            },
            None => {},
        }
        let kid = match r.journalist_id_pk.id {
            Some(kid) => kid,
            None => return true,
        };
        record_name_exec(&mut self.j_names, kid, &r.journalist_id);
        match r.journalist_id_pk.json {
            Some(kc) => {
                let prov_present = has_child(&self.j_prov, pid);
                if !offer_key_exec(&mut self.j_id, kid, kc, prov_present, pid) {
                    return false;
                }
            },
            None => {},
        }
        match (r.journalist_msg_pk.id, r.journalist_msg_pk.json) {
            (Some(mid), Some(mc)) => {
                let id_present = has_child(&self.j_id, kid);
                offer_key_exec(&mut self.j_msg, mid, mc, id_present, kid)
            },
            _ => true,
        }
    }

    fn backup(&mut self, r: &HierarchyRow) -> (ok: bool)
        ensures
            match step_backup(old(self)@, r@) {
                Some(s) => ok && final(self)@ =~= s,
                None => !ok,
            },
    {
        let (bid, bc) = match (r.backup_id_pk.id, r.backup_id_pk.json) {
            (Some(bid), Some(bc)) => (bid, bc),
            _ => return true,
        };
        let org_present = has_org(&self.orgs, r.org_pk_id);
        if !offer_key_exec(&mut self.backup_id, bid, bc, org_present, r.org_pk_id) {
            return false;
        }
        match (r.backup_msg_pk.id, r.backup_msg_pk.json) {
            (Some(mid), Some(mc)) => {
                let id_present = has_child(&self.backup_id, bid);
                offer_key_exec(&mut self.backup_msg, mid, mc, id_present, bid)
            },
            _ => true,
        }
    }

    fn row(&mut self, r: &HierarchyRow) -> (ok: bool)
        ensures
            match step_row(old(self)@, r@) {
                Some(s) => ok && final(self)@ =~= s,
                None => !ok,
            },
    {
        match r.max_epoch {
            Some(e) => {
                if e > self.epoch {
                    self.epoch = e;
                }
            },
            None => {},
        }
        if !has_org(&self.orgs, r.org_pk_id) {
            match r.org_pk {
                KeyCheck::Malformed => return false,
                KeyCheck::Parsed { verified } => {
                    if verified {
                        self.orgs.push(r.org_pk_id);
                    } else {
                        return true;
                    }
                },
            }
        }
        if !self.covernode(r) {
            return false;
        }
        if !self.journalist(r) {
            return false;
        }
        self.backup(r)
    }
}


// ---------------------------------------------------------------------------
// The tree built from the admitted keys.
// ---------------------------------------------------------------------------

/// The ids of the entries of a child list whose parent is `parent`, in list order.
pub open spec fn child_ids(s: Seq<(i32, i32)>, parent: i32) -> Seq<i32>
    decreases s.len(),
{
    if s.len() == 0 {
        seq![]
    } else {
        let rest = child_ids(s.drop_last(), parent);
        if s.last().1 == parent {
            rest.push(s.last().0)
        } else {
            rest
        }
    }
}

/// The identity keys below `parent` that have a recorded identity, with that identity.
pub open spec fn named_children(
    s: Seq<(i32, i32)>,
    names: Seq<(i32, Seq<char>)>,
    parent: i32,
) -> Seq<(i32, Seq<char>)>
    decreases s.len(),
{
    if s.len() == 0 {
        seq![]
    } else {
        let rest = named_children(s.drop_last(), names, parent);
        let k = s.last().0;
        if s.last().1 == parent && name_of(names, k) is Some {
            rest.push((k, name_of(names, k).unwrap()))
        } else {
            rest
        }
    }
}

/// `j` is the first group carrying `name`.
pub open spec fn is_first_group(groups: Seq<(Seq<char>, Seq<i32>)>, name: Seq<char>, j: int) -> bool {
    &&& 0 <= j < groups.len()
    &&& groups[j].0 == name
    &&& forall|k: int| 0 <= k < j ==> #[trigger] groups[k].0 != name
}

/// Adding identity key `m.0` of identity `m.1` to the groups: to the group of
/// that identity when there is one, else to a new group at the end.
pub open spec fn add_member(
    groups: Seq<(Seq<char>, Seq<i32>)>,
    m: (i32, Seq<char>),
) -> Seq<(Seq<char>, Seq<i32>)> {
    if exists|j: int| is_first_group(groups, m.1, j) {
        let j = choose|j: int| is_first_group(groups, m.1, j);
        groups.update(j, (m.1, groups[j].1.push(m.0)))
    } else {
        groups.push((m.1, seq![m.0]))
    }
}

/// Identity keys grouped by identity, groups in order of first appearance.
pub open spec fn group_by_name(members: Seq<(i32, Seq<char>)>) -> Seq<(Seq<char>, Seq<i32>)>
    decreases members.len(),
{
    if members.len() == 0 {
        seq![]
    } else {
        add_member(group_by_name(members.drop_last()), members.last())
    }
}

/// Each key of `ids` with the keys of `msg` below it.
pub open spec fn id_families(ids: Seq<i32>, msg: Seq<(i32, i32)>) -> Seq<(i32, Seq<i32>)> {
    ids.map_values(|k: i32| (k, child_ids(msg, k)))
}

/// Each identity group with the families of its identity keys.
pub open spec fn identity_families(
    groups: Seq<(Seq<char>, Seq<i32>)>,
    msg: Seq<(i32, i32)>,
) -> Seq<(Seq<char>, Seq<(i32, Seq<i32>)>)> {
    groups.map_values(|g: (Seq<char>, Seq<i32>)| (g.0, id_families(g.1, msg)))
}

/// The families of the provisioning keys below organization key `org`.
pub open spec fn provisioning_families(
    prov: Seq<(i32, i32)>,
    id: Seq<(i32, i32)>,
    msg: Seq<(i32, i32)>,
    names: Seq<(i32, Seq<char>)>,
    org: i32,
) -> Seq<(i32, Seq<(Seq<char>, Seq<(i32, Seq<i32>)>)>)> {
    child_ids(prov, org).map_values(
        |p: i32| (p, identity_families(group_by_name(named_children(id, names, p)), msg)),
    )
}

/// The mathematical content of one organization key's family.
#[verifier::ext_equal]
pub struct OrganizationFamilyView {
    pub org_pk: i32,
    pub covernode_provisioning: Seq<(i32, Seq<(Seq<char>, Seq<(i32, Seq<i32>)>)>)>,
    pub journalist_provisioning: Seq<(i32, Seq<(Seq<char>, Seq<(i32, Seq<i32>)>)>)>,
    pub backup_id: Seq<(i32, Seq<i32>)>,
}

/// The family of organization key `org` in state `s`.
pub open spec fn org_family(s: HierarchyState, org: i32) -> OrganizationFamilyView {
    OrganizationFamilyView {
        org_pk: org,
        covernode_provisioning: provisioning_families(s.cn_prov, s.cn_id, s.cn_msg, s.cn_names, org),
        journalist_provisioning: provisioning_families(s.j_prov, s.j_id, s.j_msg, s.j_names, org),
        backup_id: id_families(child_ids(s.backup_id, org), s.backup_msg),
    }
}

/// The whole tree of state `s`: one family per admitted organization key.
pub open spec fn tree_of(s: HierarchyState) -> Seq<OrganizationFamilyView> {
    s.orgs.map_values(|o: i32| org_family(s, o))
}

/// An identity key with the messaging keys below it.
#[derive(Clone, Debug)]
pub struct IdKeyFamily {
    pub id_pk: i32,
    pub msg_pks: Vec<i32>,
}

/// The identity key families of one identity.
#[derive(Clone, Debug)]
pub struct IdentityKeys {
    pub identity: String,
    pub id_pk_families: Vec<IdKeyFamily>,
}

/// A provisioning key with the identity keys below it, grouped by identity.
#[derive(Clone, Debug)]
pub struct ProvisioningFamily {
    pub provisioning_pk: i32,
    pub identities: Vec<IdentityKeys>,
}

/// An organization key with everything below it.
#[derive(Clone, Debug)]
pub struct OrganizationFamily {
    pub org_pk: i32,
    pub covernode_provisioning: Vec<ProvisioningFamily>,
    pub journalist_provisioning: Vec<ProvisioningFamily>,
    pub backup_id: Vec<IdKeyFamily>,
}

impl View for IdKeyFamily {
    type V = (i32, Seq<i32>);

    open spec fn view(&self) -> (i32, Seq<i32>) {
        (self.id_pk, self.msg_pks@)
    }
}

pub open spec fn id_families_view(v: Seq<IdKeyFamily>) -> Seq<(i32, Seq<i32>)> {
    v.map_values(|f: IdKeyFamily| f@)
}

impl View for IdentityKeys {
    type V = (Seq<char>, Seq<(i32, Seq<i32>)>);

    open spec fn view(&self) -> (Seq<char>, Seq<(i32, Seq<i32>)>) {
        (self.identity@, id_families_view(self.id_pk_families@))
    }
}

pub open spec fn identities_view(v: Seq<IdentityKeys>) -> Seq<(Seq<char>, Seq<(i32, Seq<i32>)>)> {
    v.map_values(|f: IdentityKeys| f@)
}

impl View for ProvisioningFamily {
    type V = (i32, Seq<(Seq<char>, Seq<(i32, Seq<i32>)>)>);

    open spec fn view(&self) -> (i32, Seq<(Seq<char>, Seq<(i32, Seq<i32>)>)>) {
        (self.provisioning_pk, identities_view(self.identities@))
    }
}

pub open spec fn provisioning_view(v: Seq<ProvisioningFamily>) -> Seq<
    (i32, Seq<(Seq<char>, Seq<(i32, Seq<i32>)>)>),
> {
    v.map_values(|f: ProvisioningFamily| f@)
}

impl View for OrganizationFamily {
    type V = OrganizationFamilyView;

    open spec fn view(&self) -> OrganizationFamilyView {
        OrganizationFamilyView {
            org_pk: self.org_pk,
            covernode_provisioning: provisioning_view(self.covernode_provisioning@),
            journalist_provisioning: provisioning_view(self.journalist_provisioning@),
            backup_id: id_families_view(self.backup_id@),
        }
    }
}

pub open spec fn organizations_view(v: Seq<OrganizationFamily>) -> Seq<OrganizationFamilyView> {
    v.map_values(|f: OrganizationFamily| f@)
}

fn child_ids_exec(list: &Vec<(i32, i32)>, parent: i32) -> (r: Vec<i32>)
    ensures
        r@ == child_ids(list@, parent),
{
    let mut r: Vec<i32> = Vec::new();
    let mut i: usize = 0;
    while i < list.len()
        invariant
            i <= list.len(),
            r@ == child_ids(list@.take(i as int), parent),
        decreases list.len() - i,
    {
        assert(list@.take(i + 1).drop_last() =~= list@.take(i as int));
        if list[i].1 == parent {
            r.push(list[i].0);
        }
        i = i + 1;
    }
    assert(list@.take(list.len() as int) =~= list@);
    r
}

fn name_of_exec(names: &Vec<(i32, String)>, id: i32) -> (r: Option<String>)
    ensures
        opt_string_view(r) == name_of(names_view(names@), id),
{
    let ghost nv = names_view(names@);
    let mut i: usize = 0;
    while i < names.len()
        invariant
            i <= names.len(),
            nv == names_view(names@),
            forall|k: int| 0 <= k < i ==> #[trigger] nv[k].0 != id,
        decreases names.len() - i,
    {
        if names[i].0 == id {
            assert(is_first_match(nv, id, i as int));
            let ghost c = choose|j: int| is_first_match(nv, id, j);
            assert(c == i) by {
                if c < i {
                    assert(nv[c].0 != id);
                } else if c > i {
                    assert(nv[i as int].0 != id);
                }
            }
            return Some(names[i].1.clone());
        }
        i = i + 1;
    }
    assert(!exists|j: int| is_first_match(nv, id, j));
    None
}

fn named_children_exec(
    list: &Vec<(i32, i32)>,
    names: &Vec<(i32, String)>,
    parent: i32,
) -> (r: Vec<(i32, String)>)
    ensures
        names_view(r@) == named_children(list@, names_view(names@), parent),
{
    let mut r: Vec<(i32, String)> = Vec::new();
    let mut i: usize = 0;
    while i < list.len()
        invariant
            i <= list.len(),
            names_view(r@) == named_children(list@.take(i as int), names_view(names@), parent),
        decreases list.len() - i,
    {
        assert(list@.take(i + 1).drop_last() =~= list@.take(i as int));
        if list[i].1 == parent {
            match name_of_exec(names, list[i].0) {
                Some(n) => {
                    let ghost before = r@;
                    r.push((list[i].0, n));
                    assert(names_view(r@) =~= names_view(before).push((list@[i as int].0, n@)));
                },
                None => {},
            }
        }
        i = i + 1;
    }
    assert(list@.take(list.len() as int) =~= list@);
    r
}

pub open spec fn groups_view(v: Seq<(String, Vec<i32>)>) -> Seq<(Seq<char>, Seq<i32>)> {
    v.map_values(|g: (String, Vec<i32>)| (g.0@, g.1@))
}

fn add_member_exec(groups: &mut Vec<(String, Vec<i32>)>, id: i32, name: &String)
    ensures
        groups_view(final(groups)@) == add_member(groups_view(old(groups)@), (id, name@)),
{
    let ghost gv = groups_view(groups@);
    let mut j: usize = 0;
    while j < groups.len()
        invariant
            j <= groups.len(),
            gv == groups_view(groups@),
            gv == groups_view(old(groups)@),
            forall|k: int| 0 <= k < j ==> #[trigger] gv[k].0 != name@,
        decreases groups.len() - j,
    {
        if groups[j].0 == *name {
            assert(is_first_group(gv, name@, j as int));
            let ghost c = choose|c: int| is_first_group(gv, name@, c);
            assert(c == j) by {
                if c < j {
                    assert(gv[c].0 != name@);
                } else if c > j {
                    assert(gv[j as int].0 != name@);
                }
            }
            let mut ids = groups[j].1.clone();
            ids.push(id);
            groups.set(j, (name.clone(), ids));
            assert(groups_view(groups@) =~= gv.update(j as int, (name@, gv[j as int].1.push(id))));
            assert(add_member(gv, (id, name@)) == gv.update(j as int, (name@, gv[j as int].1.push(id))));
            return;
        }
        j = j + 1;
    }
    assert(!exists|c: int| is_first_group(gv, name@, c));
    let mut ids: Vec<i32> = Vec::new();
    ids.push(id);
    groups.push((name.clone(), ids));
    assert(groups_view(groups@) =~= gv.push((name@, seq![id])));
}

fn group_by_name_exec(members: &Vec<(i32, String)>) -> (r: Vec<(String, Vec<i32>)>)
    ensures
        groups_view(r@) == group_by_name(names_view(members@)),
{
    let ghost mv = names_view(members@);
    let mut r: Vec<(String, Vec<i32>)> = Vec::new();
    let mut i: usize = 0;
    assert(groups_view(r@) =~= seq![]);
    while i < members.len()
        invariant
            i <= members.len(),
            mv == names_view(members@),
            groups_view(r@) == group_by_name(mv.take(i as int)),
        decreases members.len() - i,
    {
        assert(mv.take(i + 1).drop_last() =~= mv.take(i as int));
        assert(mv.take(i + 1).last() == (members@[i as int].0, members@[i as int].1@));
        add_member_exec(&mut r, members[i].0, &members[i].1);
        i = i + 1;
    }
    assert(mv.take(members.len() as int) =~= mv);
    r
}

fn id_families_exec(ids: &Vec<i32>, msg: &Vec<(i32, i32)>) -> (r: Vec<IdKeyFamily>)
    ensures
        id_families_view(r@) == id_families(ids@, msg@),
{
    let mut r: Vec<IdKeyFamily> = Vec::new();
    let mut i: usize = 0;
    while i < ids.len()
        invariant
            i <= ids.len(),
            id_families_view(r@) =~= id_families(ids@.take(i as int), msg@),
        decreases ids.len() - i,
    {
        let msgs = child_ids_exec(msg, ids[i]);
        let ghost before = r@;
        r.push(IdKeyFamily { id_pk: ids[i], msg_pks: msgs });
        assert(id_families_view(r@) =~= id_families_view(before).push((ids@[i as int], msgs@)));
        assert(id_families(ids@.take(i + 1), msg@) =~= id_families(ids@.take(i as int), msg@).push(
            (ids@[i as int], child_ids(msg@, ids@[i as int])),
        ));
        i = i + 1;
    }
    assert(ids@.take(ids.len() as int) =~= ids@);
    r
}

fn provisioning_families_exec(
    prov: &Vec<(i32, i32)>,
    id: &Vec<(i32, i32)>,
    msg: &Vec<(i32, i32)>,
    names: &Vec<(i32, String)>,
    org: i32,
) -> (r: Vec<ProvisioningFamily>)
    ensures
        provisioning_view(r@) == provisioning_families(prov@, id@, msg@, names_view(names@), org),
{
    let provs = child_ids_exec(prov, org);
    let ghost nv = names_view(names@);
    let mut r: Vec<ProvisioningFamily> = Vec::new();
    let mut i: usize = 0;
    while i < provs.len()
        invariant
            i <= provs.len(),
            nv == names_view(names@),
            provs@ == child_ids(prov@, org),
            provisioning_view(r@) =~= provisioning_families(prov@, id@, msg@, nv, org).take(i as int),
        decreases provs.len() - i,
    {
        let p = provs[i];
        let members = named_children_exec(id, names, p);
        let groups = group_by_name_exec(&members);
        let mut identities: Vec<IdentityKeys> = Vec::new();
        let mut j: usize = 0;
        while j < groups.len()
            invariant
                j <= groups.len(),
                identities_view(identities@) =~= identity_families(groups_view(groups@), msg@).take(j as int),
            decreases groups.len() - j,
        {
            let fams = id_families_exec(&groups[j].1, msg);
            let ghost before = identities@;
            identities.push(IdentityKeys { identity: groups[j].0.clone(), id_pk_families: fams });
            assert(identities_view(identities@) =~= identities_view(before).push(
                (groups@[j as int].0@, id_families(groups@[j as int].1@, msg@)),
            ));
            j = j + 1;
        }
        assert(identity_families(groups_view(groups@), msg@).take(groups.len() as int)
            =~= identity_families(groups_view(groups@), msg@));
        let ghost before = r@;
        r.push(ProvisioningFamily { provisioning_pk: p, identities });
        assert(provisioning_view(r@) =~= provisioning_view(before).push(
            (p, identity_families(group_by_name(named_children(id@, nv, p)), msg@)),
        ));
        i = i + 1;
    }
    r
}

/// The tree of the admitted keys.
fn tree_exec(b: &HierarchyBuilder) -> (r: Vec<OrganizationFamily>)
    ensures
        organizations_view(r@) == tree_of(b@),
{
    let mut r: Vec<OrganizationFamily> = Vec::new();
    let mut i: usize = 0;
    while i < b.orgs.len()
        invariant
            i <= b.orgs.len(),
            organizations_view(r@) =~= tree_of(b@).take(i as int),
        decreases b.orgs.len() - i,
    {
        let o = b.orgs[i];
        let cn = provisioning_families_exec(&b.cn_prov, &b.cn_id, &b.cn_msg, &b.cn_names, o);
        let jn = provisioning_families_exec(&b.j_prov, &b.j_id, &b.j_msg, &b.j_names, o);
        let backup_ids = child_ids_exec(&b.backup_id, o);
        let backup = id_families_exec(&backup_ids, &b.backup_msg);
        let fam = OrganizationFamily {
            org_pk: o,
            covernode_provisioning: cn,
            journalist_provisioning: jn,
            backup_id: backup,
        };
        let ghost before = r@;
        r.push(fam);
        assert(fam@ =~= org_family(b@, o));
        assert(organizations_view(r@) =~= organizations_view(before).push(fam@));
        i = i + 1;
    }
    r
}


/// Why the hierarchy could not be assembled.
#[derive(Clone, Copy, PartialEq, Eq, Structural, Debug)]
pub enum HierarchyError {
    /// A stored key that had to be decoded did not decode.
    MalformedKey,
}

/// The assembled hierarchy and the largest epoch among the rows.
#[derive(Clone, Debug)]
pub struct KeyHierarchy {
    pub organizations: Vec<OrganizationFamily>,
    pub max_epoch: i32,
}

/// The mathematical content of the rows.
pub open spec fn rows_view(rows: Seq<HierarchyRow>) -> Seq<RowView> {
    rows.map_values(|r: HierarchyRow| r@)
}

/// Once a prefix of the rows fails, the whole does.
pub proof fn lemma_failure_persists(rows: Seq<RowView>, i: int)
    requires
        0 <= i <= rows.len(),
        (process_rows(rows.take(i)) is None),
    ensures
        process_rows(rows) is None,
    decreases rows.len() - i,
{
    if i < rows.len() {
        assert(rows.take(i + 1).drop_last() =~= rows.take(i));
        lemma_failure_persists(rows, i + 1);
    } else {
        assert(rows.take(i) =~= rows);
    }
}

/// Assembles the public key hierarchy from the rows of the hierarchy query,
/// in the way `process_rows` and `tree_of` describe: keys are admitted in row
/// order, each at most once, a key only when it verified and its parent was
/// admitted before it; a malformed key met while it still had to be decoded
/// makes the whole assembly fail.
pub fn key_hierarchy_from_rows(rows: &Vec<HierarchyRow>) -> (r: Result<KeyHierarchy, HierarchyError>)
    ensures
        match process_rows(rows_view(rows@)) {
            Some(s) => r matches Ok(h) && organizations_view(h.organizations@) == tree_of(s)
                && h.max_epoch == s.epoch,
            None => r == Err::<KeyHierarchy, HierarchyError>(HierarchyError::MalformedKey),
        },
{
    let ghost rv = rows_view(rows@);
    let mut b = HierarchyBuilder::new();
    let mut i: usize = 0;
    assert(rv.take(0) =~= seq![]);
    while i < rows.len()
        invariant
            i <= rows.len(),
            rv == rows_view(rows@),
            process_rows(rv.take(i as int)) matches Some(s) && b@ =~= s,
        decreases rows.len() - i,
    {
        assert(rv.take(i + 1).drop_last() =~= rv.take(i as int));
        assert(rv.take(i + 1).last() == rows@[i as int]@);
        if !b.row(&rows[i]) {
            proof {
                lemma_failure_persists(rv, i + 1);
            }
            return Err(HierarchyError::MalformedKey);
        }
        i = i + 1;
    }
    assert(rv.take(rows.len() as int) =~= rv);
    let organizations = tree_exec(&b);
    Ok(KeyHierarchy { organizations, max_epoch: b.epoch })
}


// ---------------------------------------------------------------------------
// Properties of the assembly.
// ---------------------------------------------------------------------------

/// The column names key `id` and holds a key that decoded and verified.
pub open spec fn verified_column(c: KeyColumn, id: i32) -> bool {
    c.id == Some(id) && c.json == Some(KeyCheck::Parsed { verified: true })
}

/// Some row holds organization key `o`, decoded and verified.
pub open spec fn org_seen_verified(rows: Seq<RowView>, o: i32) -> bool {
    exists|i: int|
        0 <= i < rows.len() && #[trigger] rows[i].org_pk_id == o && rows[i].org_pk
            == KeyCheck::Parsed { verified: true }
}

/// Some row holds key `id` in the column `level` picks, verified, below parent `parent`.
pub open spec fn child_seen_verified(rows: Seq<RowView>, level: KeyLevel, id: i32, parent: i32) -> bool {
    exists|i: int| 0 <= i < rows.len() && #[trigger] seen_in_row(rows[i], level, id, parent)
}

/// The levels of the hierarchy below the organization keys.
#[derive(Clone, Copy, PartialEq, Eq, Structural, Debug)]
pub enum KeyLevel {
    CoverNodeProvisioning,
    CoverNodeId,
    CoverNodeMessaging,
    JournalistProvisioning,
    JournalistId,
    JournalistMessaging,
    BackupId,
    BackupMessaging,
}

/// Row `r` holds key `id` at `level`, verified, with `parent` as the key above it.
pub open spec fn seen_in_row(r: RowView, level: KeyLevel, id: i32, parent: i32) -> bool {
    match level {
        KeyLevel::CoverNodeProvisioning => r.org_pk_id == parent && verified_column(r.cn_prov, id),
        KeyLevel::CoverNodeId => r.cn_prov.id == Some(parent) && verified_column(r.cn_id, id),
        KeyLevel::CoverNodeMessaging => r.cn_id.id == Some(parent) && verified_column(r.cn_msg, id),
        KeyLevel::JournalistProvisioning => r.org_pk_id == parent && verified_column(r.j_prov, id),
        KeyLevel::JournalistId => r.j_prov.id == Some(parent) && verified_column(r.j_id, id),
        KeyLevel::JournalistMessaging => r.j_id.id == Some(parent) && verified_column(r.j_msg, id),
        KeyLevel::BackupId => r.org_pk_id == parent && verified_column(r.backup_id, id),
        KeyLevel::BackupMessaging => r.backup_id.id == Some(parent) && verified_column(r.backup_msg, id),
    }
}

/// Every entry of a child list was seen verified below its parent, and no id repeats.
pub open spec fn list_sound(list: Seq<(i32, i32)>, rows: Seq<RowView>, level: KeyLevel) -> bool {
    &&& keys_unique(list)
    &&& forall|k: int|
        0 <= k < list.len() ==> child_seen_verified(rows, level, #[trigger] list[k].0, list[k].1)
}

/// Every parent named in `list` is in `parents`.
pub open spec fn parents_in(list: Seq<(i32, i32)>, parents: Seq<(i32, i32)>) -> bool {
    forall|k: int| 0 <= k < list.len() ==> has_key(parents, #[trigger] list[k].1)
}

/// Every parent named in `list` is an admitted organization key.
pub open spec fn parents_in_orgs(list: Seq<(i32, i32)>, orgs: Seq<i32>) -> bool {
    forall|k: int| 0 <= k < list.len() ==> orgs.contains(#[trigger] list[k].1)
}

/// The state admits only keys seen verified below an admitted parent, each once.
pub open spec fn state_sound(s: HierarchyState, rows: Seq<RowView>) -> bool {
    &&& s.orgs.no_duplicates()
    &&& forall|k: int| 0 <= k < s.orgs.len() ==> org_seen_verified(rows, #[trigger] s.orgs[k])
    &&& list_sound(s.cn_prov, rows, KeyLevel::CoverNodeProvisioning)
    &&& list_sound(s.cn_id, rows, KeyLevel::CoverNodeId)
    &&& list_sound(s.cn_msg, rows, KeyLevel::CoverNodeMessaging)
    &&& list_sound(s.j_prov, rows, KeyLevel::JournalistProvisioning)
    &&& list_sound(s.j_id, rows, KeyLevel::JournalistId)
    &&& list_sound(s.j_msg, rows, KeyLevel::JournalistMessaging)
    &&& list_sound(s.backup_id, rows, KeyLevel::BackupId)
    &&& list_sound(s.backup_msg, rows, KeyLevel::BackupMessaging)
    &&& parents_in_orgs(s.cn_prov, s.orgs)
    &&& parents_in(s.cn_id, s.cn_prov)
    &&& parents_in(s.cn_msg, s.cn_id)
    &&& parents_in_orgs(s.j_prov, s.orgs)
    &&& parents_in(s.j_id, s.j_prov)
    &&& parents_in(s.j_msg, s.j_id)
    &&& parents_in_orgs(s.backup_id, s.orgs)
    &&& parents_in(s.backup_msg, s.backup_id)
}

proof fn lemma_list_sound_extend(list: Seq<(i32, i32)>, rows: Seq<RowView>, level: KeyLevel)
    requires
        rows.len() > 0,
        list_sound(list, rows.drop_last(), level),
    ensures
        list_sound(list, rows, level),
{
    assert forall|k: int| 0 <= k < list.len() implies child_seen_verified(
        rows,
        level,
        #[trigger] list[k].0,
        list[k].1,
    ) by {
        let i = choose|i: int|
            0 <= i < rows.drop_last().len() && #[trigger] seen_in_row(
                rows.drop_last()[i],
                level,
                list[k].0,
                list[k].1,
            );
        assert(rows.drop_last()[i] == rows[i]);
    }
}

proof fn lemma_offer_key(
    list: Seq<(i32, i32)>,
    rows: Seq<RowView>,
    level: KeyLevel,
    id: i32,
    check: KeyCheck,
    parent_present: bool,
    parent: i32,
)
    requires
        list_sound(list, rows, level),
        (offer_key(list, id, check, parent_present, parent) is Some),
        (check == KeyCheck::Parsed { verified: true }) && parent_present ==> child_seen_verified(
            rows,
            level,
            id,
            parent,
        ),
    ensures
        ({
            let l = offer_key(list, id, check, parent_present, parent).unwrap();
            &&& list_sound(l, rows, level)
            &&& l == list || (l == list.push((id, parent)) && parent_present)
        }),
{
    let l = offer_key(list, id, check, parent_present, parent).unwrap();
    if l != list {
        assert(l == list.push((id, parent)));
        assert(!has_key(list, id));
        assert forall|a: int, b: int| 0 <= a < b < l.len() implies #[trigger] l[a].0 != #[trigger] l[b].0 by {
            if b == list.len() {
                assert(l[a] == list[a]);
            } else {
                assert(l[a] == list[a] && l[b] == list[b]);
            }
        }
        assert forall|k: int| 0 <= k < l.len() implies child_seen_verified(
            rows,
            level,
            #[trigger] l[k].0,
            l[k].1,
        ) by {
            if k < list.len() {
                assert(l[k] == list[k]);
            }
        }
    }
}

proof fn lemma_has_key_push<V>(list: Seq<(i32, V)>, e: (i32, V), id: i32)
    ensures
        has_key(list, id) ==> has_key(list.push(e), id),
        has_key(list.push(e), id) ==> has_key(list, id) || e.0 == id,
{
    if has_key(list, id) {
        let i = choose|i: int| 0 <= i < list.len() && #[trigger] list[i].0 == id;
        assert(list.push(e)[i] == list[i]);
    }
    if has_key(list.push(e), id) {
        let i = choose|i: int| 0 <= i < list.push(e).len() && #[trigger] list.push(e)[i].0 == id;
        if i < list.len() {
            assert(list.push(e)[i] == list[i]);
        }
    }
}

proof fn lemma_parents_in_grow(list: Seq<(i32, i32)>, parents: Seq<(i32, i32)>, e: (i32, i32))
    requires
        parents_in(list, parents),
    ensures
        parents_in(list, parents.push(e)),
{
    assert forall|k: int| 0 <= k < list.len() implies has_key(parents.push(e), #[trigger] list[k].1) by {
        lemma_has_key_push(parents, e, list[k].1);
    }
}

proof fn lemma_parents_in_push(list: Seq<(i32, i32)>, parents: Seq<(i32, i32)>, e: (i32, i32))
    requires
        parents_in(list, parents),
        has_key(parents, e.1),
    ensures
        parents_in(list.push(e), parents),
{
    assert forall|k: int| 0 <= k < list.push(e).len() implies has_key(parents, #[trigger] list.push(e)[k].1) by {
        if k < list.len() {
            assert(list.push(e)[k] == list[k]);
        }
    }
}

proof fn lemma_parents_in_orgs_push(list: Seq<(i32, i32)>, orgs: Seq<i32>, e: (i32, i32))
    requires
        parents_in_orgs(list, orgs),
        orgs.contains(e.1),
    ensures
        parents_in_orgs(list.push(e), orgs),
{
    assert forall|k: int| 0 <= k < list.push(e).len() implies orgs.contains(#[trigger] list.push(e)[k].1) by {
        if k < list.len() {
            assert(list.push(e)[k] == list[k]);
        }
    }
}

proof fn lemma_parents_in_orgs_grow(list: Seq<(i32, i32)>, orgs: Seq<i32>, o: i32)
    requires
        parents_in_orgs(list, orgs),
    ensures
        parents_in_orgs(list, orgs.push(o)),
{
    assert forall|k: int| 0 <= k < list.len() implies orgs.push(o).contains(#[trigger] list[k].1) by {
        let j = choose|j: int| 0 <= j < orgs.len() && orgs[j] == list[k].1;
        assert(orgs.push(o)[j] == orgs[j]);
    }
}


proof fn lemma_witness_last(rows: Seq<RowView>, level: KeyLevel, id: i32, parent: i32)
    requires
        rows.len() > 0,
        seen_in_row(rows.last(), level, id, parent),
    ensures
        child_seen_verified(rows, level, id, parent),
{
    assert(seen_in_row(rows[rows.len() - 1], level, id, parent));
}

proof fn lemma_step_cn_msg(s: HierarchyState, rows: Seq<RowView>, kid: i32)
    requires
        rows.len() > 0,
        state_sound(s, rows),
        (step_cn_msg(s, rows.last(), kid) is Some),
        rows.last().cn_id.id == Some(kid),
    ensures
        state_sound(step_cn_msg(s, rows.last(), kid).unwrap(), rows),
{
    let r = rows.last();
    match (r.cn_msg.id, r.cn_msg.json) {
        (Some(mid), Some(mc)) => {
            if mc == (KeyCheck::Parsed { verified: true }) {
                lemma_witness_last(rows, KeyLevel::CoverNodeMessaging, mid, kid);
            }
            lemma_offer_key(s.cn_msg, rows, KeyLevel::CoverNodeMessaging, mid, mc, has_key(s.cn_id, kid), kid);
            let l = offer_key(s.cn_msg, mid, mc, has_key(s.cn_id, kid), kid).unwrap();
            if l != s.cn_msg {
                lemma_parents_in_push(s.cn_msg, s.cn_id, (mid, kid));
            }
        },
        _ => {},
    }
}

proof fn lemma_step_cn_id(s: HierarchyState, rows: Seq<RowView>, pid: i32)
    requires
        rows.len() > 0,
        state_sound(s, rows),
        (step_cn_id(s, rows.last(), pid) is Some),
        rows.last().cn_prov.id == Some(pid),
    ensures
        state_sound(step_cn_id(s, rows.last(), pid).unwrap(), rows),
{
    let r = rows.last();
    match r.cn_id.id {
        None => {},
        Some(kid) => {
            let s1 = HierarchyState { cn_names: record_name(s.cn_names, kid, r.cn_name), ..s };
            assert(state_sound(s1, rows));
            match r.cn_id.json {
                None => {
                    lemma_step_cn_msg(s1, rows, kid);
                },
                Some(kc) => {
                    let pp = has_key(s1.cn_prov, pid);
                    if kc == (KeyCheck::Parsed { verified: true }) {
                        lemma_witness_last(rows, KeyLevel::CoverNodeId, kid, pid);
                    }
                    lemma_offer_key(s1.cn_id, rows, KeyLevel::CoverNodeId, kid, kc, pp, pid);
                    let l = offer_key(s1.cn_id, kid, kc, pp, pid).unwrap();
                    let s3 = HierarchyState { cn_id: l, ..s1 };
                    if l != s1.cn_id {
                        lemma_parents_in_push(s1.cn_id, s1.cn_prov, (kid, pid));
                        lemma_parents_in_grow(s1.cn_msg, s1.cn_id, (kid, pid));
                    }
                    assert(state_sound(s3, rows));
                    lemma_step_cn_msg(s3, rows, kid);
                },
            }
        },
    }
}

proof fn lemma_step_covernode(s: HierarchyState, rows: Seq<RowView>)
    requires
        rows.len() > 0,
        state_sound(s, rows),
        (step_covernode(s, rows.last()) is Some),
    ensures
        state_sound(step_covernode(s, rows.last()).unwrap(), rows),
{
    let r = rows.last();
    match (r.cn_prov.id, r.cn_prov.json) {
        (Some(pid), Some(pc)) => {
            let pp = s.orgs.contains(r.org_pk_id);
            if pc == (KeyCheck::Parsed { verified: true }) {
                lemma_witness_last(rows, KeyLevel::CoverNodeProvisioning, pid, r.org_pk_id);
            }
            lemma_offer_key(s.cn_prov, rows, KeyLevel::CoverNodeProvisioning, pid, pc, pp, r.org_pk_id);
            let l = offer_key(s.cn_prov, pid, pc, pp, r.org_pk_id).unwrap();
            let s1 = HierarchyState { cn_prov: l, ..s };
            if l != s.cn_prov {
                lemma_parents_in_orgs_push(s.cn_prov, s.orgs, (pid, r.org_pk_id));
                lemma_parents_in_grow(s.cn_id, s.cn_prov, (pid, r.org_pk_id));
            }
            assert(state_sound(s1, rows));
            lemma_step_cn_id(s1, rows, pid);
        },
        _ => {},
    }
}

proof fn lemma_step_j_msg(s: HierarchyState, rows: Seq<RowView>, kid: i32)
    requires
        rows.len() > 0,
        state_sound(s, rows),
        (step_j_msg(s, rows.last(), kid) is Some),
        rows.last().j_id.id == Some(kid),
    ensures
        state_sound(step_j_msg(s, rows.last(), kid).unwrap(), rows),
{
    let r = rows.last();
    match (r.j_msg.id, r.j_msg.json) {
        (Some(mid), Some(mc)) => {
            if mc == (KeyCheck::Parsed { verified: true }) {
                lemma_witness_last(rows, KeyLevel::JournalistMessaging, mid, kid);
            }
            lemma_offer_key(s.j_msg, rows, KeyLevel::JournalistMessaging, mid, mc, has_key(s.j_id, kid), kid);
            let l = offer_key(s.j_msg, mid, mc, has_key(s.j_id, kid), kid).unwrap();
            if l != s.j_msg {
                lemma_parents_in_push(s.j_msg, s.j_id, (mid, kid));
            }
        },
        _ => {},
    }
}

proof fn lemma_step_j_id(s: HierarchyState, rows: Seq<RowView>, pid: i32)
    requires
        rows.len() > 0,
        state_sound(s, rows),
        (step_j_id(s, rows.last(), pid) is Some),
        rows.last().j_prov.id == Some(pid),
    ensures
        state_sound(step_j_id(s, rows.last(), pid).unwrap(), rows),
{
    let r = rows.last();
    match r.j_id.id {
        None => {},
        Some(kid) => {
            let s1 = HierarchyState { j_names: record_name(s.j_names, kid, r.j_name), ..s };
            assert(state_sound(s1, rows));
            match r.j_id.json {
                None => {
                    lemma_step_j_msg(s1, rows, kid);
                },
                Some(kc) => {
                    let pp = has_key(s1.j_prov, pid);
                    if kc == (KeyCheck::Parsed { verified: true }) {
                        lemma_witness_last(rows, KeyLevel::JournalistId, kid, pid);
                    }
                    lemma_offer_key(s1.j_id, rows, KeyLevel::JournalistId, kid, kc, pp, pid);
                    let l = offer_key(s1.j_id, kid, kc, pp, pid).unwrap();
                    let s3 = HierarchyState { j_id: l, ..s1 };
                    if l != s1.j_id {
                        lemma_parents_in_push(s1.j_id, s1.j_prov, (kid, pid));
                        lemma_parents_in_grow(s1.j_msg, s1.j_id, (kid, pid));
                    }
                    assert(state_sound(s3, rows));
                    lemma_step_j_msg(s3, rows, kid);
                },
            }
        },
    }
}

proof fn lemma_step_journalist(s: HierarchyState, rows: Seq<RowView>)
    requires
        rows.len() > 0,
        state_sound(s, rows),
        (step_journalist(s, rows.last()) is Some),
    ensures
        state_sound(step_journalist(s, rows.last()).unwrap(), rows),
{
    let r = rows.last();
    match r.j_prov.id {
        None => {},
        Some(pid) => {
            match r.j_prov.json {
                None => {
                    lemma_step_j_id(s, rows, pid);
                },
                Some(pc) => {
                    let pp = s.orgs.contains(r.org_pk_id);
                    if pc == (KeyCheck::Parsed { verified: true }) {
                        lemma_witness_last(rows, KeyLevel::JournalistProvisioning, pid, r.org_pk_id);
                    }
                    lemma_offer_key(s.j_prov, rows, KeyLevel::JournalistProvisioning, pid, pc, pp, r.org_pk_id);
                    let l = offer_key(s.j_prov, pid, pc, pp, r.org_pk_id).unwrap();
                    let s1 = HierarchyState { j_prov: l, ..s };
                    if l != s.j_prov {
                        lemma_parents_in_orgs_push(s.j_prov, s.orgs, (pid, r.org_pk_id));
                        lemma_parents_in_grow(s.j_id, s.j_prov, (pid, r.org_pk_id));
                    }
                    assert(state_sound(s1, rows));
                    lemma_step_j_id(s1, rows, pid);
                },
            }
        },
    }
}

proof fn lemma_step_backup(s: HierarchyState, rows: Seq<RowView>)
    requires
        rows.len() > 0,
        state_sound(s, rows),
        (step_backup(s, rows.last()) is Some),
    ensures
        state_sound(step_backup(s, rows.last()).unwrap(), rows),
{
    let r = rows.last();
    match (r.backup_id.id, r.backup_id.json) {
        (Some(bid), Some(bc)) => {
            let pp = s.orgs.contains(r.org_pk_id);
            if bc == (KeyCheck::Parsed { verified: true }) {
                lemma_witness_last(rows, KeyLevel::BackupId, bid, r.org_pk_id);
            }
            lemma_offer_key(s.backup_id, rows, KeyLevel::BackupId, bid, bc, pp, r.org_pk_id);
            let l = offer_key(s.backup_id, bid, bc, pp, r.org_pk_id).unwrap();
            let s1 = HierarchyState { backup_id: l, ..s };
            if l != s.backup_id {
                lemma_parents_in_orgs_push(s.backup_id, s.orgs, (bid, r.org_pk_id));
                lemma_parents_in_grow(s.backup_msg, s.backup_id, (bid, r.org_pk_id));
            }
            assert(state_sound(s1, rows));
            match (r.backup_msg.id, r.backup_msg.json) {
                (Some(mid), Some(mc)) => {
                    let mp = has_key(s1.backup_id, bid);
                    if mc == (KeyCheck::Parsed { verified: true }) {
                        lemma_witness_last(rows, KeyLevel::BackupMessaging, mid, bid);
                    }
                    lemma_offer_key(s1.backup_msg, rows, KeyLevel::BackupMessaging, mid, mc, mp, bid);
                    let m = offer_key(s1.backup_msg, mid, mc, mp, bid).unwrap();
                    if m != s1.backup_msg {
                        lemma_parents_in_push(s1.backup_msg, s1.backup_id, (mid, bid));
                    }
                },
                _ => {},
            }
        },
        _ => {},
    }
}


proof fn lemma_state_sound_extend(s: HierarchyState, rows: Seq<RowView>)
    requires
        rows.len() > 0,
        state_sound(s, rows.drop_last()),
    ensures
        state_sound(s, rows),
{
    lemma_list_sound_extend(s.cn_prov, rows, KeyLevel::CoverNodeProvisioning);
    lemma_list_sound_extend(s.cn_id, rows, KeyLevel::CoverNodeId);
    lemma_list_sound_extend(s.cn_msg, rows, KeyLevel::CoverNodeMessaging);
    lemma_list_sound_extend(s.j_prov, rows, KeyLevel::JournalistProvisioning);
    lemma_list_sound_extend(s.j_id, rows, KeyLevel::JournalistId);
    lemma_list_sound_extend(s.j_msg, rows, KeyLevel::JournalistMessaging);
    lemma_list_sound_extend(s.backup_id, rows, KeyLevel::BackupId);
    lemma_list_sound_extend(s.backup_msg, rows, KeyLevel::BackupMessaging);
    assert forall|k: int| 0 <= k < s.orgs.len() implies org_seen_verified(rows, #[trigger] s.orgs[k]) by {
        let p = rows.drop_last();
        let i = choose|i: int|
            0 <= i < p.len() && #[trigger] p[i].org_pk_id == s.orgs[k] && p[i].org_pk
                == KeyCheck::Parsed { verified: true };
        assert(p[i] == rows[i]);
    }
}

proof fn lemma_step_org(s: HierarchyState, rows: Seq<RowView>)
    requires
        rows.len() > 0,
        state_sound(s, rows),
        (step_org(s, rows.last()) is Some),
    ensures
        state_sound(step_org(s, rows.last()).unwrap().0, rows),
        step_org(s, rows.last()).unwrap().1 ==> step_org(s, rows.last()).unwrap().0.orgs.contains(
            rows.last().org_pk_id,
        ),
{
    let r = rows.last();
    if !s.orgs.contains(r.org_pk_id) && r.org_pk == (KeyCheck::Parsed { verified: true }) {
        let o2 = s.orgs.push(r.org_pk_id);
        assert(rows[rows.len() - 1].org_pk_id == r.org_pk_id);
        assert forall|k: int| 0 <= k < o2.len() implies org_seen_verified(rows, #[trigger] o2[k]) by {
            if k < s.orgs.len() {
                assert(o2[k] == s.orgs[k]);
            }
        }
        assert forall|a: int, b: int| 0 <= a < o2.len() && 0 <= b < o2.len() && a != b implies o2[a]
            != o2[b] by {
            if a < s.orgs.len() && b < s.orgs.len() {
                assert(o2[a] == s.orgs[a] && o2[b] == s.orgs[b]);
            } else if a < s.orgs.len() {
                assert(o2[a] == s.orgs[a]);
            } else {
                assert(o2[b] == s.orgs[b]);
            }
        }
        lemma_parents_in_orgs_grow(s.cn_prov, s.orgs, r.org_pk_id);
        lemma_parents_in_orgs_grow(s.j_prov, s.orgs, r.org_pk_id);
        lemma_parents_in_orgs_grow(s.backup_id, s.orgs, r.org_pk_id);
        assert(o2[o2.len() - 1] == r.org_pk_id);
    }
}

proof fn lemma_step_row(s: HierarchyState, rows: Seq<RowView>)
    requires
        rows.len() > 0,
        state_sound(s, rows),
        (step_row(s, rows.last()) is Some),
    ensures
        state_sound(step_row(s, rows.last()).unwrap(), rows),
{
    let r = rows.last();
    let s0 = HierarchyState { epoch: next_epoch(s.epoch, r.max_epoch), ..s };
    assert(state_sound(s0, rows));
    lemma_step_org(s0, rows);
    let (s1, keep_going) = step_org(s0, r).unwrap();
    if keep_going {
        lemma_step_covernode(s1, rows);
        let s2 = step_covernode(s1, r).unwrap();
        lemma_step_journalist(s2, rows);
        let s3 = step_journalist(s2, r).unwrap();
        lemma_step_backup(s3, rows);
    }
}

/// Keys enter the hierarchy only verified and below an admitted parent, and
/// each at most once: every admitted organization key was seen verified in
/// some row, every admitted key of a lower level was seen verified in some row
/// below the parent it is filed under, that parent is itself admitted, and no
/// key id is admitted twice at one level.
pub proof fn lemma_admitted_keys_are_verified(rows: Seq<RowView>)
    requires
        (process_rows(rows) is Some),
    ensures
        state_sound(process_rows(rows).unwrap(), rows),
    decreases rows.len(),
{
    if rows.len() == 0 {
        let s = initial_state();
        assert(state_sound(s, rows));
    } else {
        let p = rows.drop_last();
        lemma_admitted_keys_are_verified(p);
        let s = process_rows(p).unwrap();
        lemma_state_sound_extend(s, rows);
        lemma_step_row(s, rows);
    }
}

/// The epoch reported is the largest epoch any row carries, or 0 when no row carries one.
pub proof fn lemma_epoch_is_largest(rows: Seq<RowView>)
    requires
        (process_rows(rows) is Some),
    ensures
        ({
            let e = process_rows(rows).unwrap().epoch;
            &&& forall|i: int| 0 <= i < rows.len() && (#[trigger] rows[i].max_epoch is Some)
                ==> rows[i].max_epoch.unwrap() <= e
            &&& e == 0 || exists|i: int| 0 <= i < rows.len() && #[trigger] rows[i].max_epoch == Some(e)
        }),
    decreases rows.len(),
{
    if rows.len() > 0 {
        let p = rows.drop_last();
        lemma_admitted_keys_are_verified(p);
        lemma_epoch_is_largest(p);
        let s = process_rows(p).unwrap();
        let r = rows.last();
        let e = process_rows(rows).unwrap().epoch;
        assert(e == next_epoch(s.epoch, r.max_epoch));
        assert forall|i: int| 0 <= i < rows.len() && (#[trigger] rows[i].max_epoch is Some) implies rows[i].max_epoch.unwrap()
            <= e by {
            if i < p.len() {
                assert(p[i] == rows[i]);
            }
        }
        if e != 0 {
            if e == s.epoch {
                let i = choose|i: int| 0 <= i < p.len() && #[trigger] p[i].max_epoch == Some(s.epoch);
                assert(p[i] == rows[i]);
            } else {
                assert(rows[rows.len() - 1].max_epoch == Some(e));
            }
        }
    }
}


proof fn lemma_child_ids_members(list: Seq<(i32, i32)>, parent: i32)
    ensures
        forall|j: int|
            0 <= j < child_ids(list, parent).len() ==> exists|k: int|
                0 <= k < list.len() && #[trigger] list[k] == (#[trigger] child_ids(list, parent)[j], parent),
    decreases list.len(),
{
    if list.len() > 0 {
        let p = list.drop_last();
        lemma_child_ids_members(p, parent);
        let c = child_ids(list, parent);
        assert forall|j: int| 0 <= j < c.len() implies exists|k: int|
            0 <= k < list.len() && #[trigger] list[k] == (#[trigger] c[j], parent) by {
            if j < child_ids(p, parent).len() {
                assert(c[j] == child_ids(p, parent)[j]);
                let k = choose|k: int| 0 <= k < p.len() && #[trigger] p[k] == (child_ids(p, parent)[j], parent);
                assert(list[k] == p[k]);
            } else {
                assert(list[list.len() - 1] == (c[j], parent));
            }
        }
    }
}

proof fn lemma_named_children_members(list: Seq<(i32, i32)>, names: Seq<(i32, Seq<char>)>, parent: i32)
    ensures
        forall|j: int|
            0 <= j < named_children(list, names, parent).len() ==> exists|k: int|
                0 <= k < list.len() && #[trigger] list[k] == (#[trigger] named_children(list, names, parent)[j].0, parent),
    decreases list.len(),
{
    if list.len() > 0 {
        let p = list.drop_last();
        lemma_named_children_members(p, names, parent);
        let c = named_children(list, names, parent);
        let cp = named_children(p, names, parent);
        assert forall|j: int| 0 <= j < c.len() implies exists|k: int|
            0 <= k < list.len() && #[trigger] list[k] == (#[trigger] c[j].0, parent) by {
            if j < cp.len() {
                assert(c[j] == cp[j]);
                let k = choose|k: int| 0 <= k < p.len() && #[trigger] p[k] == (cp[j].0, parent);
                assert(list[k] == p[k]);
            } else {
                assert(list[list.len() - 1] == (c[j].0, parent));
            }
        }
    }
}

/// Every id in a group comes from a member carrying the group's identity.
pub open spec fn groups_from(groups: Seq<(Seq<char>, Seq<i32>)>, members: Seq<(i32, Seq<char>)>) -> bool {
    forall|c: int, d: int|
        0 <= c < groups.len() && 0 <= d < groups[c].1.len() ==> exists|j: int|
            0 <= j < members.len() && #[trigger] members[j] == (#[trigger] groups[c].1[d], groups[c].0)
}

proof fn lemma_group_members(members: Seq<(i32, Seq<char>)>)
    ensures
        groups_from(group_by_name(members), members),
    decreases members.len(),
{
    if members.len() > 0 {
        let p = members.drop_last();
        lemma_group_members(p);
        let gp = group_by_name(p);
        let m = members.last();
        let g = group_by_name(members);
        assert(g == add_member(gp, m));
        assert forall|c: int, d: int| 0 <= c < g.len() && 0 <= d < g[c].1.len() implies exists|j: int|
            0 <= j < members.len() && #[trigger] members[j] == (#[trigger] g[c].1[d], g[c].0) by {
            let last = members.len() - 1;
            assert(members[last] == m);
            if exists|j: int| is_first_group(gp, m.1, j) {
                let jj = choose|j: int| is_first_group(gp, m.1, j);
                if c == jj && d == gp[c].1.len() {
                    assert(g[c].1[d] == m.0 && g[c].0 == m.1);
                } else {
                    assert(g[c].1[d] == gp[c].1[d] && g[c].0 == gp[c].0);
                    let j = choose|j: int| 0 <= j < p.len() && #[trigger] p[j] == (gp[c].1[d], gp[c].0);
                    assert(members[j] == p[j]);
                }
            } else {
                if c == gp.len() {
                    assert(g[c].1[d] == m.0 && g[c].0 == m.1);
                } else {
                    assert(g[c] == gp[c]);
                    let j = choose|j: int| 0 <= j < p.len() && #[trigger] p[j] == (gp[c].1[d], gp[c].0);
                    assert(members[j] == p[j]);
                }
            }
        }
    }
}

/// Each family's identity key was seen verified below `parent`, and each of its
/// messaging keys below it.
pub open spec fn id_families_sound(
    fams: Seq<(i32, Seq<i32>)>,
    rows: Seq<RowView>,
    id_level: KeyLevel,
    msg_level: KeyLevel,
    parent: i32,
) -> bool {
    forall|d: int|
        0 <= d < fams.len() ==> {
            &&& child_seen_verified(rows, id_level, #[trigger] fams[d].0, parent)
            &&& forall|e: int|
                0 <= e < fams[d].1.len() ==> child_seen_verified(rows, msg_level, #[trigger] fams[d].1[e], fams[d].0)
        }
}

/// Each provisioning family's key was seen verified below `org`, and every
/// identity family below it is sound.
pub open spec fn provisioning_sound(
    provs: Seq<(i32, Seq<(Seq<char>, Seq<(i32, Seq<i32>)>)>)>,
    rows: Seq<RowView>,
    prov_level: KeyLevel,
    id_level: KeyLevel,
    msg_level: KeyLevel,
    org: i32,
) -> bool {
    forall|b: int|
        0 <= b < provs.len() ==> {
            &&& child_seen_verified(rows, prov_level, #[trigger] provs[b].0, org)
            &&& forall|c: int|
                0 <= c < provs[b].1.len() ==> id_families_sound(
                    #[trigger] provs[b].1[c].1,
                    rows,
                    id_level,
                    msg_level,
                    provs[b].0,
                )
        }
}

proof fn lemma_id_families_sound(
    ids: Seq<i32>,
    id_list: Seq<(i32, i32)>,
    msg: Seq<(i32, i32)>,
    rows: Seq<RowView>,
    id_level: KeyLevel,
    msg_level: KeyLevel,
    parent: i32,
)
    requires
        list_sound(id_list, rows, id_level),
        list_sound(msg, rows, msg_level),
        forall|d: int| 0 <= d < ids.len() ==> exists|k: int|
            0 <= k < id_list.len() && #[trigger] id_list[k] == (#[trigger] ids[d], parent),
    ensures
        id_families_sound(id_families(ids, msg), rows, id_level, msg_level, parent),
{
    let fams = id_families(ids, msg);
    assert forall|d: int| 0 <= d < fams.len() implies {
        &&& child_seen_verified(rows, id_level, #[trigger] fams[d].0, parent)
        &&& forall|e: int|
            0 <= e < fams[d].1.len() ==> child_seen_verified(rows, msg_level, #[trigger] fams[d].1[e], fams[d].0)
    } by {
        assert(fams[d] == (ids[d], child_ids(msg, ids[d])));
        let k = choose|k: int| 0 <= k < id_list.len() && #[trigger] id_list[k] == (ids[d], parent);
        assert(child_seen_verified(rows, id_level, id_list[k].0, id_list[k].1));
        lemma_child_ids_members(msg, ids[d]);
        assert forall|e: int| 0 <= e < fams[d].1.len() implies child_seen_verified(
            rows,
            msg_level,
            #[trigger] fams[d].1[e],
            fams[d].0,
        ) by {
            let kk = choose|kk: int| 0 <= kk < msg.len() && #[trigger] msg[kk] == (child_ids(msg, ids[d])[e], ids[d]);
            assert(child_seen_verified(rows, msg_level, msg[kk].0, msg[kk].1));
        }
    }
}

proof fn lemma_provisioning_sound(
    prov: Seq<(i32, i32)>,
    id: Seq<(i32, i32)>,
    msg: Seq<(i32, i32)>,
    names: Seq<(i32, Seq<char>)>,
    rows: Seq<RowView>,
    prov_level: KeyLevel,
    id_level: KeyLevel,
    msg_level: KeyLevel,
    org: i32,
)
    requires
        list_sound(prov, rows, prov_level),
        list_sound(id, rows, id_level),
        list_sound(msg, rows, msg_level),
    ensures
        provisioning_sound(provisioning_families(prov, id, msg, names, org), rows, prov_level, id_level, msg_level, org),
{
    let provs = provisioning_families(prov, id, msg, names, org);
    lemma_child_ids_members(prov, org);
    assert forall|b: int| 0 <= b < provs.len() implies {
        &&& child_seen_verified(rows, prov_level, #[trigger] provs[b].0, org)
        &&& forall|c: int|
            0 <= c < provs[b].1.len() ==> id_families_sound(
                #[trigger] provs[b].1[c].1,
                rows,
                id_level,
                msg_level,
                provs[b].0,
            )
    } by {
        let p = child_ids(prov, org)[b];
        let k = choose|k: int| 0 <= k < prov.len() && #[trigger] prov[k] == (p, org);
        assert(child_seen_verified(rows, prov_level, prov[k].0, prov[k].1));
        let members = named_children(id, names, p);
        let groups = group_by_name(members);
        lemma_named_children_members(id, names, p);
        lemma_group_members(members);
        assert(provs[b] == (p, identity_families(groups, msg)));
        assert forall|c: int| 0 <= c < provs[b].1.len() implies id_families_sound(
            #[trigger] provs[b].1[c].1,
            rows,
            id_level,
            msg_level,
            provs[b].0,
        ) by {
            let g = groups[c];
            assert(provs[b].1[c] == (g.0, id_families(g.1, msg)));
            assert forall|d: int| 0 <= d < g.1.len() implies exists|kk: int|
                0 <= kk < id.len() && #[trigger] id[kk] == (#[trigger] g.1[d], p) by {
                let j = choose|j: int| 0 <= j < members.len() && #[trigger] members[j] == (#[trigger] groups[c].1[d], groups[c].0);
                let kk = choose|kk: int| 0 <= kk < id.len() && #[trigger] id[kk] == (members[j].0, p);
            }
            lemma_id_families_sound(g.1, id, msg, rows, id_level, msg_level, p);
        }
    }
}

/// Everything the assembled hierarchy serves was verified: each organization
/// key was seen verified in some row, and each key of a lower level was seen
/// verified in some row below the very key it is served under.
pub proof fn lemma_served_keys_are_verified(rows: Seq<RowView>)
    requires
        (process_rows(rows) is Some),
    ensures
        ({
            let t = tree_of(process_rows(rows).unwrap());
            forall|a: int|
                0 <= a < t.len() ==> {
                    &&& org_seen_verified(rows, #[trigger] t[a].org_pk)
                    &&& provisioning_sound(
                        t[a].covernode_provisioning,
                        rows,
                        KeyLevel::CoverNodeProvisioning,
                        KeyLevel::CoverNodeId,
                        KeyLevel::CoverNodeMessaging,
                        t[a].org_pk,
                    )
                    &&& provisioning_sound(
                        t[a].journalist_provisioning,
                        rows,
                        KeyLevel::JournalistProvisioning,
                        KeyLevel::JournalistId,
                        KeyLevel::JournalistMessaging,
                        t[a].org_pk,
                    )
                    &&& id_families_sound(
                        t[a].backup_id,
                        rows,
                        KeyLevel::BackupId,
                        KeyLevel::BackupMessaging,
                        t[a].org_pk,
                    )
                }
        }),
{
    lemma_admitted_keys_are_verified(rows);
    let s = process_rows(rows).unwrap();
    let t = tree_of(s);
    assert forall|a: int| 0 <= a < t.len() implies {
        &&& org_seen_verified(rows, #[trigger] t[a].org_pk)
        &&& provisioning_sound(
            t[a].covernode_provisioning,
            rows,
            KeyLevel::CoverNodeProvisioning,
            KeyLevel::CoverNodeId,
            KeyLevel::CoverNodeMessaging,
            t[a].org_pk,
        )
        &&& provisioning_sound(
            t[a].journalist_provisioning,
            rows,
            KeyLevel::JournalistProvisioning,
            KeyLevel::JournalistId,
            KeyLevel::JournalistMessaging,
            t[a].org_pk,
        )
        &&& id_families_sound(t[a].backup_id, rows, KeyLevel::BackupId, KeyLevel::BackupMessaging, t[a].org_pk)
    } by {
        let o = s.orgs[a];
        assert(t[a] == org_family(s, o));
        lemma_provisioning_sound(
            s.cn_prov,
            s.cn_id,
            s.cn_msg,
            s.cn_names,
            rows,
            KeyLevel::CoverNodeProvisioning,
            KeyLevel::CoverNodeId,
            KeyLevel::CoverNodeMessaging,
            o,
        );
        lemma_provisioning_sound(
            s.j_prov,
            s.j_id,
            s.j_msg,
            s.j_names,
            rows,
            KeyLevel::JournalistProvisioning,
            KeyLevel::JournalistId,
            KeyLevel::JournalistMessaging,
            o,
        );
        lemma_child_ids_members(s.backup_id, o);
        lemma_id_families_sound(
            child_ids(s.backup_id, o),
            s.backup_id,
            s.backup_msg,
            rows,
            KeyLevel::BackupId,
            KeyLevel::BackupMessaging,
            o,
        );
    }
}


/// The hierarchy serves identity keys for journalist `id`.
pub open spec fn serves_journalist(t: Seq<OrganizationFamilyView>, id: Seq<char>) -> bool {
    exists|a: int, b: int, c: int|
        0 <= a < t.len() && 0 <= b < t[a].journalist_provisioning.len() && 0 <= c
            < t[a].journalist_provisioning[b].1.len() && #[trigger] t[a].journalist_provisioning[b].1[c].0
            == id
}

fn serves_journalist_exec(orgs: &Vec<OrganizationFamily>, id: &String) -> (r: bool)
    ensures
        r == serves_journalist(organizations_view(orgs@), id@),
{
    let ghost t = organizations_view(orgs@);
    let mut a: usize = 0;
    while a < orgs.len()
        invariant
            a <= orgs.len(),
            t == organizations_view(orgs@),
            forall|x: int, y: int, z: int|
                0 <= x < a && 0 <= y < t[x].journalist_provisioning.len() && 0 <= z
                    < t[x].journalist_provisioning[y].1.len() ==> #[trigger] t[x].journalist_provisioning[y].1[z].0
                    != id@,
        decreases orgs.len() - a,
    {
        let provs = &orgs[a].journalist_provisioning;
        assert(t[a as int].journalist_provisioning == provisioning_view(provs@));
        let mut b: usize = 0;
        while b < provs.len()
            invariant
                a < orgs.len(),
                b <= provs.len(),
                t == organizations_view(orgs@),
                t[a as int].journalist_provisioning == provisioning_view(provs@),
                forall|x: int, y: int, z: int|
                    0 <= x < a && 0 <= y < t[x].journalist_provisioning.len() && 0 <= z
                        < t[x].journalist_provisioning[y].1.len() ==> #[trigger] t[x].journalist_provisioning[y].1[z].0
                        != id@,
                forall|y: int, z: int|
                    0 <= y < b && 0 <= z < t[a as int].journalist_provisioning[y].1.len()
                        ==> #[trigger] t[a as int].journalist_provisioning[y].1[z].0 != id@,
            decreases provs.len() - b,
        {
            let groups = &provs[b].identities;
            assert(t[a as int].journalist_provisioning[b as int].1 == identities_view(groups@));
            let mut c: usize = 0;
            while c < groups.len()
                invariant
                    a < orgs.len(),
                    b < provs.len(),
                    c <= groups.len(),
                    t == organizations_view(orgs@),
                    t[a as int].journalist_provisioning == provisioning_view(provs@),
                    t[a as int].journalist_provisioning[b as int].1 == identities_view(groups@),
                    forall|z: int| 0 <= z < c ==> #[trigger] t[a as int].journalist_provisioning[b as int].1[z].0 != id@,
                decreases groups.len() - c,
            {
                if groups[c].identity == *id {
                    assert(t[a as int].journalist_provisioning[b as int].1[c as int].0 == id@);
                    return true;
                }
                c = c + 1;
            }
            b = b + 1;
        }
        a = a + 1;
    }
    false
}

/// The default journalist is offered to clients only when the hierarchy
/// serves keys for that journalist.
pub fn default_journalist_if_served(default_journalist_id: Option<String>, hierarchy: &KeyHierarchy) -> (r: Option<String>)
    ensures
        opt_string_view(r) == match default_journalist_id {
            Some(d) => if serves_journalist(organizations_view(hierarchy.organizations@), d@) {
                Some(d@)
            } else {
                None
            },
            None => None,
        },
{
    match default_journalist_id {
        Some(d) => {
            if serves_journalist_exec(&hierarchy.organizations, &d) {
                Some(d)
            } else {
                None
            }
        },
        None => None,
    }
}


// ---------------------------------------------------------------------------
// Completeness: a verified key below an admitted parent is served.
// ---------------------------------------------------------------------------

/// The admitted keys of `level`, each with its parent.
pub open spec fn level_list(s: HierarchyState, level: KeyLevel) -> Seq<(i32, i32)> {
    match level {
        KeyLevel::CoverNodeProvisioning => s.cn_prov,
        KeyLevel::CoverNodeId => s.cn_id,
        KeyLevel::CoverNodeMessaging => s.cn_msg,
        KeyLevel::JournalistProvisioning => s.j_prov,
        KeyLevel::JournalistId => s.j_id,
        KeyLevel::JournalistMessaging => s.j_msg,
        KeyLevel::BackupId => s.backup_id,
        KeyLevel::BackupMessaging => s.backup_msg,
    }
}

/// Key `parent` of the level above `level` is admitted in `s`.
pub open spec fn parent_admitted(s: HierarchyState, level: KeyLevel, parent: i32) -> bool {
    match level {
        KeyLevel::CoverNodeProvisioning => s.orgs.contains(parent),
        KeyLevel::CoverNodeId => has_key(s.cn_prov, parent),
        KeyLevel::CoverNodeMessaging => has_key(s.cn_id, parent),
        KeyLevel::JournalistProvisioning => s.orgs.contains(parent),
        KeyLevel::JournalistId => has_key(s.j_prov, parent),
        KeyLevel::JournalistMessaging => has_key(s.j_id, parent),
        KeyLevel::BackupId => s.orgs.contains(parent),
        KeyLevel::BackupMessaging => has_key(s.backup_id, parent),
    }
}

/// A key column holds both the key's id and its JSON, or neither.
pub open spec fn column_whole(c: KeyColumn) -> bool {
    c.id is Some <==> c.json is Some
}

/// A row as the hierarchy query makes it: every key comes with its id and its
/// JSON (both are required in the key tables), and a key comes only with the
/// key above it (each level is joined on its parent's id).
pub open spec fn row_well_formed(r: RowView) -> bool {
    &&& column_whole(r.cn_prov)
    &&& column_whole(r.cn_id)
    &&& column_whole(r.cn_msg)
    &&& column_whole(r.j_prov)
    &&& column_whole(r.j_id)
    &&& column_whole(r.j_msg)
    &&& column_whole(r.backup_id)
    &&& column_whole(r.backup_msg)
    &&& (r.cn_id.id is Some ==> r.cn_prov.id is Some)
    &&& (r.cn_msg.id is Some ==> r.cn_id.id is Some)
    &&& (r.j_id.id is Some ==> r.j_prov.id is Some)
    &&& (r.j_msg.id is Some ==> r.j_id.id is Some)
    &&& (r.backup_msg.id is Some ==> r.backup_id.id is Some)
}

/// Every row that holds key `id` at `level` holds it below `parent`, as a
/// key table's parent column gives each key one parent.
pub open spec fn one_parent(rows: Seq<RowView>, level: KeyLevel, id: i32, parent: i32) -> bool {
    forall|j: int, p: i32| 0 <= j < rows.len() && #[trigger] seen_in_row(rows[j], level, id, p) ==> p == parent
}

/// `b` starts with `a`.
pub open spec fn extends<T>(a: Seq<T>, b: Seq<T>) -> bool {
    &&& a.len() <= b.len()
    &&& forall|i: int| 0 <= i < a.len() ==> #[trigger] b[i] == a[i]
}

/// Every key list of `b` starts with the same list of `a`.
pub open spec fn state_extends(a: HierarchyState, b: HierarchyState) -> bool {
    &&& extends(a.orgs, b.orgs)
    &&& extends(a.cn_prov, b.cn_prov)
    &&& extends(a.cn_id, b.cn_id)
    &&& extends(a.cn_msg, b.cn_msg)
    &&& extends(a.j_prov, b.j_prov)
    &&& extends(a.j_id, b.j_id)
    &&& extends(a.j_msg, b.j_msg)
    &&& extends(a.backup_id, b.backup_id)
    &&& extends(a.backup_msg, b.backup_msg)
}

proof fn lemma_offers_extend()
    ensures
        forall|list: Seq<(i32, i32)>, id: i32, check: KeyCheck, pp: bool, parent: i32|
            (#[trigger] offer_key(list, id, check, pp, parent) is Some) ==> extends(
                list,
                offer_key(list, id, check, pp, parent).unwrap(),
            ),
{
    assert forall|list: Seq<(i32, i32)>, id: i32, check: KeyCheck, pp: bool, parent: i32|
        (#[trigger] offer_key(list, id, check, pp, parent) is Some) implies extends(
            list,
            offer_key(list, id, check, pp, parent).unwrap(),
        ) by {
        let l = offer_key(list, id, check, pp, parent).unwrap();
        if l != list {
            assert(l == list.push((id, parent)));
        }
    }
}

proof fn lemma_offer_admits(list: Seq<(i32, i32)>, id: i32, pp: bool, parent: i32)
    ensures
        offer_key(list, id, KeyCheck::Parsed { verified: true }, pp, parent) is Some,
        has_key(list, id) || pp ==> has_key(
            offer_key(list, id, KeyCheck::Parsed { verified: true }, pp, parent).unwrap(),
            id,
        ),
{
    if !has_key(list, id) && pp {
        let l = list.push((id, parent));
        assert(l[list.len() as int].0 == id);
    }
}

proof fn lemma_extends_refl(s: HierarchyState)
    ensures
        state_extends(s, s),
{
}

proof fn lemma_extends_trans(a: HierarchyState, b: HierarchyState, c: HierarchyState)
    requires
        state_extends(a, b),
        state_extends(b, c),
    ensures
        state_extends(a, c),
{
}

proof fn lemma_has_key_extends(a: Seq<(i32, i32)>, b: Seq<(i32, i32)>, id: i32)
    requires
        extends(a, b),
        has_key(a, id),
    ensures
        has_key(b, id),
{
    let i = choose|i: int| 0 <= i < a.len() && #[trigger] a[i].0 == id;
    assert(b[i] == a[i]);
}

proof fn lemma_step_row_extends(s: HierarchyState, r: RowView)
    requires
        (step_row(s, r) is Some),
    ensures
        state_extends(s, step_row(s, r).unwrap()),
{
    lemma_offers_extend();
    let s0 = HierarchyState { epoch: next_epoch(s.epoch, r.max_epoch), ..s };
    let (s1, keep_going) = step_org(s0, r).unwrap();
    assert(state_extends(s, s1)) by {
        if s1.orgs != s.orgs {
            assert(s1.orgs == s.orgs.push(r.org_pk_id));
        }
    }
    if keep_going {
        let s2 = step_covernode(s1, r).unwrap();
        let s3 = step_journalist(s2, r).unwrap();
        assert(state_extends(s1, s2));
        assert(state_extends(s2, s3));
        assert(state_extends(s3, step_row(s, r).unwrap()));
        lemma_extends_trans(s1, s2, s3);
        lemma_extends_trans(s1, s3, step_row(s, r).unwrap());
        lemma_extends_trans(s, s1, step_row(s, r).unwrap());
    }
}

/// The state after the first `i` rows has every key list of the state after
/// all rows as a prefix.
proof fn lemma_prefix_grows(rows: Seq<RowView>, i: int)
    requires
        (process_rows(rows) is Some),
        0 <= i <= rows.len(),
    ensures
        (process_rows(rows.take(i)) is Some),
        state_extends(process_rows(rows.take(i)).unwrap(), process_rows(rows).unwrap()),
    decreases rows.len(),
{
    if i == rows.len() {
        assert(rows.take(i) =~= rows);
        lemma_extends_refl(process_rows(rows).unwrap());
    } else {
        let p = rows.drop_last();
        assert(p.take(i) =~= rows.take(i));
        lemma_prefix_grows(p, i);
        lemma_step_row_extends(process_rows(p).unwrap(), rows.last());
        lemma_extends_trans(
            process_rows(rows.take(i)).unwrap(),
            process_rows(p).unwrap(),
            process_rows(rows).unwrap(),
        );
    }
}

proof fn lemma_covernode_admits(s1: HierarchyState, r: RowView, level: KeyLevel, id: i32, parent: i32)
    requires
        (step_covernode(s1, r) is Some),
        row_well_formed(r),
        level == KeyLevel::CoverNodeProvisioning || level == KeyLevel::CoverNodeId || level
            == KeyLevel::CoverNodeMessaging,
        seen_in_row(r, level, id, parent),
        s1.orgs.contains(r.org_pk_id),
        parent_admitted(step_covernode(s1, r).unwrap(), level, parent),
    ensures
        has_key(level_list(step_covernode(s1, r).unwrap(), level), id),
{
    lemma_offers_extend();
    let s2 = step_covernode(s1, r).unwrap();
    let pid = r.cn_prov.id.unwrap();
    let pc = r.cn_prov.json.unwrap();
    let l = offer_key(s1.cn_prov, pid, pc, s1.orgs.contains(r.org_pk_id), r.org_pk_id).unwrap();
    let sa = HierarchyState { cn_prov: l, ..s1 };
    assert(s2 == step_cn_id(sa, r, pid).unwrap());
    if level == KeyLevel::CoverNodeProvisioning {
        lemma_offer_admits(s1.cn_prov, pid, s1.orgs.contains(r.org_pk_id), r.org_pk_id);
        assert(s2.cn_prov == l);
    } else {
        let kid = r.cn_id.id.unwrap();
        let sb = HierarchyState { cn_names: record_name(sa.cn_names, kid, r.cn_name), ..sa };
        let kc = r.cn_id.json.unwrap();
        let li = offer_key(sb.cn_id, kid, kc, has_key(sb.cn_prov, pid), pid).unwrap();
        let sc = HierarchyState { cn_id: li, ..sb };
        assert(s2 == step_cn_msg(sc, r, kid).unwrap());
        assert(s2.cn_prov == l && s2.cn_id == li);
        if level == KeyLevel::CoverNodeId {
            lemma_offer_admits(sb.cn_id, kid, has_key(sb.cn_prov, pid), pid);
        } else {
            let mid = r.cn_msg.id.unwrap();
            lemma_offer_admits(sc.cn_msg, mid, has_key(sc.cn_id, kid), kid);
        }
    }
}

proof fn lemma_journalist_admits(s2: HierarchyState, r: RowView, level: KeyLevel, id: i32, parent: i32)
    requires
        (step_journalist(s2, r) is Some),
        row_well_formed(r),
        level == KeyLevel::JournalistProvisioning || level == KeyLevel::JournalistId || level
            == KeyLevel::JournalistMessaging,
        seen_in_row(r, level, id, parent),
        s2.orgs.contains(r.org_pk_id),
        parent_admitted(step_journalist(s2, r).unwrap(), level, parent),
    ensures
        has_key(level_list(step_journalist(s2, r).unwrap(), level), id),
{
    lemma_offers_extend();
    let s3 = step_journalist(s2, r).unwrap();
    let pid = r.j_prov.id.unwrap();
    let sa = match r.j_prov.json {
        None => s2,
        Some(pc) => HierarchyState {
            j_prov: offer_key(s2.j_prov, pid, pc, s2.orgs.contains(r.org_pk_id), r.org_pk_id).unwrap(),
            ..s2
        },
    };
    assert(s3 == step_j_id(sa, r, pid).unwrap());
    if level == KeyLevel::JournalistProvisioning {
        lemma_offer_admits(s2.j_prov, pid, s2.orgs.contains(r.org_pk_id), r.org_pk_id);
        assert(s3.j_prov == sa.j_prov);
    } else {
        let kid = r.j_id.id.unwrap();
        let sb = HierarchyState { j_names: record_name(sa.j_names, kid, r.j_name), ..sa };
        let kc = r.j_id.json.unwrap();
        let li = offer_key(sb.j_id, kid, kc, has_key(sb.j_prov, pid), pid).unwrap();
        let sc = HierarchyState { j_id: li, ..sb };
        assert(s3 == step_j_msg(sc, r, kid).unwrap());
        assert(s3.j_prov == sa.j_prov && s3.j_id == li);
        if level == KeyLevel::JournalistId {
            lemma_offer_admits(sb.j_id, kid, has_key(sb.j_prov, pid), pid);
        } else {
            let mid = r.j_msg.id.unwrap();
            lemma_offer_admits(sc.j_msg, mid, has_key(sc.j_id, kid), kid);
        }
    }
}

proof fn lemma_backup_admits(s3: HierarchyState, r: RowView, level: KeyLevel, id: i32, parent: i32)
    requires
        (step_backup(s3, r) is Some),
        row_well_formed(r),
        level == KeyLevel::BackupId || level == KeyLevel::BackupMessaging,
        seen_in_row(r, level, id, parent),
        s3.orgs.contains(r.org_pk_id),
        parent_admitted(step_backup(s3, r).unwrap(), level, parent),
    ensures
        has_key(level_list(step_backup(s3, r).unwrap(), level), id),
{
    let s4 = step_backup(s3, r).unwrap();
    let bid = r.backup_id.id.unwrap();
    let bc = r.backup_id.json.unwrap();
    lemma_offers_extend();
    let l = offer_key(s3.backup_id, bid, bc, s3.orgs.contains(r.org_pk_id), r.org_pk_id).unwrap();
    assert(s4.backup_id == l);
    if level == KeyLevel::BackupId {
        lemma_offer_admits(s3.backup_id, bid, s3.orgs.contains(r.org_pk_id), r.org_pk_id);
    } else {
        let mid = r.backup_msg.id.unwrap();
        lemma_offer_admits(s3.backup_msg, mid, has_key(l, bid), bid);
    }
}

/// Within one row, a key held verified below a parent that is admitted once
/// the row is read is admitted too, when the row's organization key is.
proof fn lemma_row_admits(s: HierarchyState, r: RowView, level: KeyLevel, id: i32, parent: i32)
    requires
        (step_row(s, r) is Some),
        row_well_formed(r),
        seen_in_row(r, level, id, parent),
        step_row(s, r).unwrap().orgs.contains(r.org_pk_id),
        parent_admitted(step_row(s, r).unwrap(), level, parent),
    ensures
        has_key(level_list(step_row(s, r).unwrap(), level), id),
{
    let s0 = HierarchyState { epoch: next_epoch(s.epoch, r.max_epoch), ..s };
    let (s1, keep_going) = step_org(s0, r).unwrap();
    let s5 = step_row(s, r).unwrap();
    if !keep_going {
        assert(s5 == s1);
        assert(false);
    }
    let s2 = step_covernode(s1, r).unwrap();
    let s3 = step_journalist(s2, r).unwrap();
    assert(s5 == step_backup(s3, r).unwrap());
    assert(s2.orgs == s1.orgs && s3.orgs == s1.orgs && s5.orgs == s1.orgs);
    match level {
        KeyLevel::CoverNodeProvisioning | KeyLevel::CoverNodeId | KeyLevel::CoverNodeMessaging => {
            assert(s5.cn_prov == s2.cn_prov && s5.cn_id == s2.cn_id && s5.cn_msg == s2.cn_msg);
            lemma_covernode_admits(s1, r, level, id, parent);
        },
        KeyLevel::JournalistProvisioning | KeyLevel::JournalistId | KeyLevel::JournalistMessaging => {
            assert(s5.j_prov == s3.j_prov && s5.j_id == s3.j_id && s5.j_msg == s3.j_msg);
            lemma_journalist_admits(s2, r, level, id, parent);
        },
        KeyLevel::BackupId | KeyLevel::BackupMessaging => {
            lemma_backup_admits(s3, r, level, id, parent);
        },
    }
}

proof fn lemma_child_ids_complete(list: Seq<(i32, i32)>, id: i32, parent: i32, k: int)
    requires
        0 <= k < list.len(),
        list[k] == (id, parent),
    ensures
        child_ids(list, parent).contains(id),
    decreases list.len(),
{
    let p = list.drop_last();
    if k == list.len() - 1 {
        let c = child_ids(list, parent);
        assert(c[c.len() - 1] == id);
    } else {
        assert(p[k] == list[k]);
        lemma_child_ids_complete(p, id, parent, k);
        let cp = child_ids(p, parent);
        let j = choose|j: int| 0 <= j < cp.len() && cp[j] == id;
        assert(child_ids(list, parent)[j] == cp[j]);
    }
}

/// Keys are not lost: a key that some row holds verified below a parent
/// that is admitted once that row is read (the row's organization key being
/// admitted too) is admitted at the end, at every level of the hierarchy.
/// For the rows the hierarchy query makes, this is every verified key whose
/// parent is served.
pub proof fn lemma_verified_keys_are_admitted(rows: Seq<RowView>, i: int, level: KeyLevel, id: i32, parent: i32)
    requires
        (process_rows(rows) is Some),
        0 <= i < rows.len(),
        row_well_formed(rows[i]),
        seen_in_row(rows[i], level, id, parent),
        process_rows(rows.take(i + 1)) matches Some(s) && s.orgs.contains(rows[i].org_pk_id)
            && parent_admitted(s, level, parent),
    ensures
        has_key(level_list(process_rows(rows).unwrap(), level), id),
{
    let q = rows.take(i + 1);
    lemma_prefix_grows(rows, i + 1);
    assert(q.drop_last() =~= rows.take(i));
    assert(q.last() == rows[i]);
    let before = process_rows(q.drop_last()).unwrap();
    lemma_row_admits(before, rows[i], level, id, parent);
    let si = process_rows(q).unwrap();
    let f = process_rows(rows).unwrap();
    match level {
        KeyLevel::CoverNodeProvisioning => lemma_has_key_extends(si.cn_prov, f.cn_prov, id),
        KeyLevel::CoverNodeId => lemma_has_key_extends(si.cn_id, f.cn_id, id),
        KeyLevel::CoverNodeMessaging => lemma_has_key_extends(si.cn_msg, f.cn_msg, id),
        KeyLevel::JournalistProvisioning => lemma_has_key_extends(si.j_prov, f.j_prov, id),
        KeyLevel::JournalistId => lemma_has_key_extends(si.j_id, f.j_id, id),
        KeyLevel::JournalistMessaging => lemma_has_key_extends(si.j_msg, f.j_msg, id),
        KeyLevel::BackupId => lemma_has_key_extends(si.backup_id, f.backup_id, id),
        KeyLevel::BackupMessaging => lemma_has_key_extends(si.backup_msg, f.backup_msg, id),
    }
}

/// A verified key is served in its parent's family: when every row that
/// holds the key holds it below the same parent, the key is among that
/// parent's children in the result.  For a messaging key, its identity
/// key's family lists it (`id_families` pairs identity key `k` with
/// `child_ids(msg, k)`); so after a messaging key rotation both the old and
/// the new messaging key are served while both are valid.
pub proof fn lemma_verified_keys_are_served(rows: Seq<RowView>, i: int, level: KeyLevel, id: i32, parent: i32)
    requires
        (process_rows(rows) is Some),
        0 <= i < rows.len(),
        row_well_formed(rows[i]),
        seen_in_row(rows[i], level, id, parent),
        one_parent(rows, level, id, parent),
        process_rows(rows.take(i + 1)) matches Some(s) && s.orgs.contains(rows[i].org_pk_id)
            && parent_admitted(s, level, parent),
    ensures
        child_ids(level_list(process_rows(rows).unwrap(), level), parent).contains(id),
{
    lemma_verified_keys_are_admitted(rows, i, level, id, parent);
    lemma_admitted_keys_are_verified(rows);
    let f = process_rows(rows).unwrap();
    let list = level_list(f, level);
    assert(list_sound(list, rows, level));
    let k = choose|k: int| 0 <= k < list.len() && #[trigger] list[k].0 == id;
    assert(child_seen_verified(rows, level, list[k].0, list[k].1));
    let j = choose|j: int| 0 <= j < rows.len() && #[trigger] seen_in_row(rows[j], level, id, list[k].1);
    assert(list[k].1 == parent);
    lemma_child_ids_complete(list, id, parent, k);
}

} // verus!
