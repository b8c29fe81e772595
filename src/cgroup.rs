//! Cgroup membership of a process: parsing the per-process descriptor
//! (`hierarchy_id:controllers:path` per line), choosing the primary path and
//! mapping each controller to its path.

use crate::text::{
    lemma_split_nonempty, parse_unsigned, split_at_char, split_seq, unsigned_value, views_of,
};
use vstd::prelude::*;

verus! {

/// One cgroup membership line: hierarchy (0 is the unified one), its
/// controllers and the cgroup's path.
pub struct CgroupInfo {
    pub hierarchy_id: u32,
    pub controllers: Vec<String>,
    pub path: String,
}

/// What a [`CgroupInfo`] holds.
pub struct CgroupView {
    pub hierarchy_id: u32,
    pub controllers: Seq<Seq<char>>,
    pub path: Seq<char>,
}

impl View for CgroupInfo {
    type V = CgroupView;

    open spec fn view(&self) -> CgroupView {
        CgroupView {
            hierarchy_id: self.hierarchy_id,
            controllers: views_of(self.controllers@),
            path: self.path@,
        }
    }
}

/// The views of a sequence of memberships.
pub open spec fn cgroup_views(v: Seq<CgroupInfo>) -> Seq<CgroupView> {
    v.map_values(|g: CgroupInfo| g@)
}

/// The membership that stands in for an unreadable descriptor.
pub open spec fn fallback_cgroup() -> CgroupView {
    CgroupView { hierarchy_id: 0, controllers: Seq::empty(), path: "/"@ }
}

/// The membership that a descriptor line describes, if it is well formed:
/// exactly three `:`-separated fields, the first a decimal `u32`; an empty
/// controller list stands for the single controller `unified`.
pub open spec fn cgroup_line(line: Seq<char>) -> Option<CgroupView> {
    let parts = split_seq(line, ':');
    if parts.len() == 3 && unsigned_value(parts[0], 10, u32::MAX as int) is Some {
        Some(
            CgroupView {
                hierarchy_id: unsigned_value(parts[0], 10, u32::MAX as int).unwrap() as u32,
                controllers: if parts[1].len() == 0 {
                    seq!["unified"@]
                } else {
                    split_seq(parts[1], ',')
                },
                path: parts[2],
            },
        )
    } else {
        None
    }
}

/// `l` without one trailing carriage return.
pub open spec fn strip_cr(l: Seq<char>) -> Seq<char> {
    if l.len() > 0 && l.last() == '\r' {
        l.drop_last()
    } else {
        l
    }
}

/// The lines of `text`: split at `\n`, a `\r` before a `\n` dropped, and no
/// empty line after a final `\n`.
pub open spec fn lines_of(text: Seq<char>) -> Seq<Seq<char>> {
    let pieces = split_seq(text, '\n');
    let kept = if pieces.last().len() == 0 {
        pieces.drop_last()
    } else {
        pieces
    };
    Seq::new(
        kept.len(),
        |i: int|
            if i < pieces.len() - 1 {
                strip_cr(kept[i])
            } else {
                kept[i]
            },
    )
}

/// The memberships of the well-formed lines among `lines`, in order.
pub open spec fn parsed_lines(lines: Seq<Seq<char>>) -> Seq<CgroupView>
    decreases lines.len(),
{
    if lines.len() == 0 {
        Seq::empty()
    } else {
        let init = parsed_lines(lines.drop_last());
        match cgroup_line(lines.last()) {
            Some(g) => init.push(g),
            None => init,
        }
    }
}

/// The memberships that a descriptor text lists; malformed lines are skipped.
pub open spec fn descriptor_cgroups(text: Seq<char>) -> Seq<CgroupView> {
    parsed_lines(lines_of(text))
}

impl Default for CgroupInfo {
    /// The fallback membership: unified hierarchy, no controllers, root path.
    fn default() -> (r: Self)
        ensures
            r@ == fallback_cgroup(),
    {
        let r = CgroupInfo { hierarchy_id: 0, controllers: Vec::new(), path: "/".to_owned() };
        assert(views_of(r.controllers@) =~= Seq::<Seq<char>>::empty());
        r
    }
}

/// Parses one descriptor line; `None` for a malformed one.
pub fn parse_cgroup_line(line: &str) -> (r: Option<CgroupInfo>)
    ensures
        r matches Some(g) ==> cgroup_line(line@) == Some(g@),
        r is None ==> cgroup_line(line@) is None,
{
    let parts = split_at_char(line, ':');
    if parts.len() != 3 {
        return None;
    }
    assert(views_of(parts@)[0] == parts@[0]@);
    assert(views_of(parts@)[1] == parts@[1]@);
    assert(views_of(parts@)[2] == parts@[2]@);
    let id = match parse_unsigned(parts[0].as_str(), 10, u32::MAX as u128) {
        Some(v) => v as u32,
        None => {
            return None;
        },
    };
    let controllers = if parts[1].as_str().is_empty() {
        let v = vec!["unified".to_owned()];
        assert(views_of(v@) =~= seq!["unified"@]);
        v
    } else {
        split_at_char(parts[1].as_str(), ',')
    };
    Some(CgroupInfo { hierarchy_id: id, controllers, path: parts[2].clone() })
}

/// `l` without one trailing carriage return.
fn strip_trailing_cr(l: &str) -> (r: &str)
    ensures
        r@ == strip_cr(l@),
{
    let n = l.unicode_len();
    if n > 0 && l.get_char(n - 1) == '\r' {
        l.substring_char(0, n - 1)
    } else {
        l
    }
}

/// Parses a descriptor text: the memberships of its well-formed lines, in
/// order.
pub fn parse_cgroups(contents: &str) -> (r: Vec<CgroupInfo>)
    ensures
        cgroup_views(r@) == descriptor_cgroups(contents@),
{
    let pieces = split_at_char(contents, '\n');
    proof {
        lemma_split_nonempty(contents@, '\n');
    }
    let total = pieces.len();
    let ghost spieces = split_seq(contents@, '\n');
    let ghost lines = lines_of(contents@);
    assert(views_of(pieces@)[total - 1] == pieces@[total - 1]@);
    let kept = if pieces[total - 1].as_str().is_empty() {
        total - 1
    } else {
        total
    };
    assert(lines.len() == kept);
    let mut out: Vec<CgroupInfo> = Vec::new();
    let mut i: usize = 0;
    proof {
        assert(lines.subrange(0, 0) =~= Seq::<Seq<char>>::empty());
        assert(cgroup_views(out@) =~= Seq::<CgroupView>::empty());
    }
    while i < kept
        invariant
            kept == lines.len(),
            total == spieces.len(),
            kept <= total,
            lines == lines_of(contents@),
            spieces == split_seq(contents@, '\n'),
            views_of(pieces@) == spieces,
            i <= kept,
            cgroup_views(out@) == parsed_lines(lines.subrange(0, i as int)),
        decreases kept - i,
    {
        assert(views_of(pieces@)[i as int] == pieces@[i as int]@);
        let piece = pieces[i].as_str();
        let line = if i < total - 1 {
            strip_trailing_cr(piece)
        } else {
            piece
        };
        assert(line@ == lines[i as int]);
        let ghost prev = out@;
        match parse_cgroup_line(line) {
            Some(g) => {
                out.push(g);
                assert(cgroup_views(out@) =~= cgroup_views(prev).push(g@));
            },
            None => {},
        }
        proof {
            let sub = lines.subrange(0, i + 1);
            assert(sub.drop_last() =~= lines.subrange(0, i as int));
            assert(sub.last() == lines[i as int]);
        }
        i = i + 1;
    }
    assert(lines.subrange(0, kept as int) =~= lines);
    out
}

/// The memberships of a process given its descriptor text, or the fallback
/// membership alone when the descriptor could not be read.
pub fn cgroups_from_descriptor(contents: Option<&str>) -> (r: Vec<CgroupInfo>)
    ensures
        contents matches Some(t) ==> cgroup_views(r@) == descriptor_cgroups(t@),
        contents is None ==> cgroup_views(r@) == seq![fallback_cgroup()],
{
    match contents {
        Some(t) => parse_cgroups(t),
        None => {
            let r = vec![CgroupInfo::default()];
            assert(cgroup_views(r@) =~= seq![fallback_cgroup()]);
            r
        },
    }
}

/// Whether a membership lists the `systemd` controller.
pub open spec fn has_systemd(g: CgroupView) -> bool {
    g.controllers.contains("systemd"@)
}

/// The path of the last membership that is in the unified hierarchy (when
/// `unified`) or that lists `systemd` (otherwise).
pub open spec fn last_path_where(groups: Seq<CgroupView>, unified: bool) -> Option<Seq<char>>
    decreases groups.len(),
{
    if groups.len() == 0 {
        None
    } else if (if unified {
        groups.last().hierarchy_id == 0
    } else {
        has_systemd(groups.last())
    }) {
        Some(groups.last().path)
    } else {
        last_path_where(groups.drop_last(), unified)
    }
}

/// The primary cgroup path: that of the unified hierarchy if there is one,
/// else that of a membership listing `systemd`, else `/`.
pub open spec fn primary_path(groups: Seq<CgroupView>) -> Seq<char> {
    match last_path_where(groups, true) {
        Some(p) => p,
        None => match last_path_where(groups, false) {
            Some(p) => p,
            None => "/"@,
        },
    }
}

/// Whether `g` lists the `systemd` controller.
fn lists_systemd(g: &CgroupInfo) -> (r: bool)
    ensures
        r == has_systemd(g@),
{
    let systemd = "systemd".to_owned();
    let mut j: usize = 0;
    while j < g.controllers.len()
        invariant
            j <= g.controllers@.len(),
            systemd@ == "systemd"@,
            forall|k: int| 0 <= k < j ==> g.controllers@[k]@ != "systemd"@,
        decreases g.controllers@.len() - j,
    {
        if g.controllers[j] == systemd {
            assert(views_of(g.controllers@)[j as int] == "systemd"@);
            return true;
        }
        j = j + 1;
    }
    proof {
        if has_systemd(g@) {
            let k = choose|k: int|
                0 <= k < views_of(g.controllers@).len() && views_of(g.controllers@)[k]
                    == "systemd"@;
            assert(g.controllers@[k]@ == "systemd"@);
        }
    }
    false
}

/// The primary cgroup path of a process with memberships `groups`.
pub fn primary_cgroup_path(groups: &Vec<CgroupInfo>) -> (r: String)
    ensures
        r@ == primary_path(cgroup_views(groups@)),
{
    let ghost views = cgroup_views(groups@);
    let mut unified: Option<usize> = None;
    let mut systemd: Option<usize> = None;
    let mut i: usize = 0;
    while i < groups.len()
        invariant
            views == cgroup_views(groups@),
            i <= groups@.len(),
            unified matches Some(k) ==> k < i && last_path_where(views.subrange(0, i as int), true)
                == Some(groups@[k as int].path@),
            unified is None ==> last_path_where(views.subrange(0, i as int), true) is None,
            systemd matches Some(k) ==> k < i && last_path_where(views.subrange(0, i as int), false)
                == Some(groups@[k as int].path@),
            systemd is None ==> last_path_where(views.subrange(0, i as int), false) is None,
        decreases groups@.len() - i,
    {
        proof {
            let sub = views.subrange(0, i + 1);
            assert(sub.drop_last() =~= views.subrange(0, i as int));
            assert(sub.last() == groups@[i as int]@);
        }
        if groups[i].hierarchy_id == 0 {
            unified = Some(i);
        }
        if lists_systemd(&groups[i]) {
            systemd = Some(i);
        }
        i = i + 1;
    }
    assert(views.subrange(0, i as int) =~= views);
    match unified {
        Some(k) => groups[k].path.clone(),
        None => match systemd {
            Some(k) => groups[k].path.clone(),
            None => "/".to_owned(),
        },
    }
}

/// Each controller of each membership with that membership's path, in order.
pub open spec fn controller_pairs(groups: Seq<CgroupView>) -> Seq<(Seq<char>, Seq<char>)>
    decreases groups.len(),
{
    if groups.len() == 0 {
        Seq::empty()
    } else {
        let g = groups.last();
        controller_pairs(groups.drop_last()) + g.controllers.map_values(
            |c: Seq<char>| (c, g.path),
        )
    }
}

/// The map that inserting `pairs` in order builds: a later pair for a key
/// replaces an earlier one.
pub open spec fn map_of_pairs(pairs: Seq<(Seq<char>, Seq<char>)>) -> Map<Seq<char>, Seq<char>>
    decreases pairs.len(),
{
    if pairs.len() == 0 {
        Map::empty()
    } else {
        map_of_pairs(pairs.drop_last()).insert(pairs.last().0, pairs.last().1)
    }
}

/// The controller-to-path mapping of memberships `groups`; the last
/// membership that lists a controller decides its path.
pub open spec fn controller_map(groups: Seq<CgroupView>) -> Map<Seq<char>, Seq<char>> {
    map_of_pairs(controller_pairs(groups))
}

/// The views of a list of key-value string pairs.
pub open spec fn pair_views(v: Seq<(String, String)>) -> Seq<(Seq<char>, Seq<char>)> {
    v.map_values(|p: (String, String)| (p.0@, p.1@))
}

/// No key occurs twice among `pairs`.
pub open spec fn keys_unique(pairs: Seq<(Seq<char>, Seq<char>)>) -> bool {
    forall|i: int, j: int| 0 <= i < j < pairs.len() ==> pairs[i].0 != pairs[j].0
}

proof fn lemma_map_of_pairs_update(pairs: Seq<(Seq<char>, Seq<char>)>, idx: int, v: Seq<char>)
    requires
        keys_unique(pairs),
        0 <= idx < pairs.len(),
    ensures
        map_of_pairs(pairs.update(idx, (pairs[idx].0, v))) == map_of_pairs(pairs).insert(
            pairs[idx].0,
            v,
        ),
    decreases pairs.len(),
{
    let k = pairs[idx].0;
    let upd = pairs.update(idx, (k, v));
    let init = pairs.drop_last();
    if idx == pairs.len() - 1 {
        assert(upd.drop_last() =~= init);
        assert(map_of_pairs(upd) =~= map_of_pairs(pairs).insert(k, v));
    } else {
        assert(keys_unique(init));
        lemma_map_of_pairs_update(init, idx, v);
        assert(upd.drop_last() =~= init.update(idx, (k, v)));
        assert(pairs.last().0 != k);
        assert(map_of_pairs(upd) =~= map_of_pairs(pairs).insert(k, v));
    }
}

/// Sets `key` to `value` in the association list `out`.
fn set_pair(out: &mut Vec<(String, String)>, key: String, value: String)
    requires
        keys_unique(pair_views(old(out)@)),
    ensures
        keys_unique(pair_views(final(out)@)),
        map_of_pairs(pair_views(final(out)@)) == map_of_pairs(pair_views(old(out)@)).insert(
            key@,
            value@,
        ),
{
    let ghost before = pair_views(out@);
    let mut i: usize = 0;
    while i < out.len()
        invariant
            before == pair_views(out@),
            before == pair_views(old(out)@),
            keys_unique(before),
            i <= out@.len(),
            forall|j: int| 0 <= j < i ==> before[j].0 != key@,
        decreases out@.len() - i,
    {
        assert(before[i as int].0 == out@[i as int].0@);
        if out[i].0 == key {
            let ghost kv = value@;
            let ghost kk = key@;
            assert(before[i as int].0 == kk);
            out.set(i, (key, value));
            proof {
                assert(pair_views(out@) =~= before.update(i as int, (before[i as int].0, kv)));
                lemma_map_of_pairs_update(before, i as int, kv);
                assert(forall|a: int| 0 <= a < before.len() ==> #[trigger] pair_views(out@)[a].0
                    == before[a].0);
                assert(map_of_pairs(pair_views(out@)) == map_of_pairs(before).insert(kk, kv));
            }
            return;
        }
        i = i + 1;
    }
    let ghost kk = key@;
    let ghost vv = value@;
    out.push((key, value));
    assert(pair_views(out@) =~= before.push((kk, vv)));
    assert(pair_views(out@).drop_last() =~= before);
}

/// The controller-to-path mapping of memberships `groups`, one entry per
/// controller, each controller first seen first.
pub fn controller_paths(groups: &Vec<CgroupInfo>) -> (r: Vec<(String, String)>)
    ensures
        keys_unique(pair_views(r@)),
        map_of_pairs(pair_views(r@)) == controller_map(cgroup_views(groups@)),
{
    let ghost views = cgroup_views(groups@);
    let mut out: Vec<(String, String)> = Vec::new();
    let mut i: usize = 0;
    assert(views.subrange(0, 0) =~= Seq::<CgroupView>::empty());
    assert(pair_views(out@) =~= Seq::<(Seq<char>, Seq<char>)>::empty());
    while i < groups.len()
        invariant
            views == cgroup_views(groups@),
            i <= groups@.len(),
            keys_unique(pair_views(out@)),
            map_of_pairs(pair_views(out@)) == controller_map(views.subrange(0, i as int)),
        decreases groups@.len() - i,
    {
        let g = &groups[i];
        let ghost gv = g@;
        let ghost base = controller_map(views.subrange(0, i as int));
        let ghost done_pairs = controller_pairs(views.subrange(0, i as int));
        let ghost added = gv.controllers.map_values(|c: Seq<char>| (c, gv.path));
        let mut j: usize = 0;
        assert(done_pairs + added.subrange(0, 0) =~= done_pairs);
        while j < g.controllers.len()
            invariant
                gv == g@,
                j <= g.controllers@.len(),
                added == gv.controllers.map_values(|c: Seq<char>| (c, gv.path)),
                keys_unique(pair_views(out@)),
                map_of_pairs(pair_views(out@)) == map_of_pairs(
                    done_pairs + added.subrange(0, j as int),
                ),
            decreases g.controllers@.len() - j,
        {
            assert(views_of(g.controllers@)[j as int] == g.controllers@[j as int]@);
            set_pair(&mut out, g.controllers[j].clone(), g.path.clone());
            proof {
                let ext = done_pairs + added.subrange(0, j + 1);
                assert(ext.drop_last() =~= done_pairs + added.subrange(0, j as int));
                assert(ext.last() == added[j as int]);
            }
            j = j + 1;
        }
        proof {
            let sub = views.subrange(0, i + 1);
            assert(sub.drop_last() =~= views.subrange(0, i as int));
            assert(sub.last() == gv);
            assert(added.subrange(0, j as int) =~= added);
        }
        i = i + 1;
    }
    assert(views.subrange(0, i as int) =~= views);
    out
}

} // verus!
