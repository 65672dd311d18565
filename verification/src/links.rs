use vstd::prelude::*;
use crate::models::LinkRegion;
use crate::renderer::RegionM;
use crate::text::sat_add;

verus! {

/// Whether a region on the given line covers column `x`.
pub open spec fn region_hits(r: RegionM, line: nat, x: nat) -> bool {
    r.line_index == line && r.x_start <= x && x < r.x_end
}

/// The next link in tab order, cyclic: from the last link it wraps to
/// the first. An empty registry leaves the index alone.
pub fn next_link_index(cur: usize, len: usize) -> (r: usize)
    requires
        len == 0 || cur < len,
    ensures
        len == 0 ==> r == cur,
        len > 0 ==> r == (cur + 1) as int % len as int,
{
    if len == 0 {
        cur
    } else {
        (cur + 1) % len
    }
}

/// The previous link in tab order, cyclic: from the first link it wraps
/// to the last. An empty registry leaves the index alone.
pub fn previous_link_index(cur: usize, len: usize) -> (r: usize)
    requires
        len == 0 || cur < len,
    ensures
        len == 0 ==> r == cur,
        len > 0 && cur > 0 ==> r == cur - 1,
        len > 0 && cur == 0 ==> r == len - 1,
{
    if len == 0 {
        cur
    } else if cur > 0 {
        cur - 1
    } else {
        len - 1
    }
}

/// The index of the first region of `links` that line `line` column `x`
/// hits, scanning from `from`.
pub open spec fn spec_hit_from(links: Seq<RegionM>, line: nat, x: nat, from: int) -> Option<int>
    decreases links.len() - from,
{
    if from < 0 || from >= links.len() {
        None
    } else if region_hits(links[from], line, x) {
        Some(from)
    } else {
        spec_hit_from(links, line, x, from + 1)
    }
}

/// The first region covering the given coordinate, if any.
pub open spec fn spec_hit_test(links: Seq<RegionM>, line: nat, x: nat) -> Option<int> {
    spec_hit_from(links, line, x, 0)
}

/// Finds the first region on the given line whose column range contains
/// `x`; `None` exactly when no region does.
pub fn hit_test(regions: &Vec<LinkRegion>, line_index: usize, x: usize) -> (r: Option<usize>)
    ensures
        ({
            let s = spec_hit_test(
                regions@.map_values(|reg: LinkRegion| reg@),
                line_index as nat,
                x as nat,
            );
            match r {
                Some(i) => i < regions@.len() && s == Some(i as int),
                None => s is None,
            }
        }),
{
    let ghost links = regions@.map_values(|reg: LinkRegion| reg@);
    let n = regions.len();
    let mut i: usize = 0;
    while i < n
        invariant
            i <= n,
            n == regions@.len(),
            links == regions@.map_values(|reg: LinkRegion| reg@),
            spec_hit_test(links, line_index as nat, x as nat) == spec_hit_from(
                links,
                line_index as nat,
                x as nat,
                i as int,
            ),
        decreases n - i,
    {
        let reg = &regions[i];
        if reg.line_index == line_index && reg.x_start <= x && x < reg.x_end {
            return Some(i);
        }
        i = i + 1;
    }
    None
}

/// Where the viewport must scroll so the given line is visible: jump up
/// to a line above the window; scroll just enough to land a line below
/// the window on the last visible row; leave a visible line alone.
pub open spec fn spec_autoscroll(line: nat, scroll: nat, height: nat) -> nat {
    if line < scroll {
        line
    } else if height == 0 {
        sat_add(line, 1)
    } else if line - scroll >= height {
        (line - (height - 1)) as nat
    } else {
        scroll
    }
}

pub fn autoscroll(line_index: usize, scroll: usize, height: usize) -> (r: usize)
    ensures
        r == spec_autoscroll(line_index as nat, scroll as nat, height as nat),
{
    if line_index < scroll {
        line_index
    } else if height == 0 {
        line_index.saturating_add(1)
    } else if line_index - scroll >= height {
        line_index - (height - 1)
    } else {
        scroll
    }
}

} // verus!
