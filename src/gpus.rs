//! The graphics adapters worth showing: one entry per physical device, the
//! best-described one, in a stable order.

use crate::models::GpuInfo;
use crate::settings::{is_text_less, lemma_text_less_transitive, text_less};
use crate::shortcuts::same_text;
use crate::text::{concat2, decimal, decimal_string, lower_of, lowercase};
use vstd::prelude::*;
use vstd::seq_lib::group_to_multiset_ensures;
use vstd::utf8::encode_utf8;

verus! {

/// Whether an adapter is a software renderer on the processor.
pub open spec fn is_cpu_adapter(g: GpuInfo) -> bool {
    g.device_type matches Some(t) && t@ == "Cpu"@
}

fn cpu_adapter(g: &GpuInfo) -> (r: bool)
    ensures
        r == is_cpu_adapter(*g),
{
    match &g.device_type {
        Some(t) => same_text(t.as_str(), "Cpu"),
        None => false,
    }
}

/// `s` without its processor adapters.
pub open spec fn without_cpu(s: Seq<GpuInfo>) -> Seq<GpuInfo>
    decreases s.len(),
{
    if s.len() == 0 {
        s
    } else if is_cpu_adapter(s.last()) {
        without_cpu(s.drop_last())
    } else {
        without_cpu(s.drop_last()).push(s.last())
    }
}

/// The adapters considered: the hardware ones where there is any, else all.
pub open spec fn considered(all: Seq<GpuInfo>) -> Seq<GpuInfo> {
    if exists|i: int| 0 <= i < all.len() && !is_cpu_adapter(all[i]) {
        without_cpu(all)
    } else {
        all
    }
}

/// The vendor id, 0 where unknown.
pub open spec fn vendor_of(g: GpuInfo) -> u32 {
    match g.vendor {
        Some(v) => v,
        None => 0,
    }
}

/// The device id, 0 where unknown.
pub open spec fn device_of(g: GpuInfo) -> u32 {
    match g.device {
        Some(d) => d,
        None => 0,
    }
}

/// What identifies a physical device: `<vendor>:<device>`, or
/// `<vendor>:<name in lower case>` where the device id is unknown.
pub open spec fn gpu_key(g: GpuInfo) -> Seq<char> {
    decimal(vendor_of(g) as nat) + ":"@ + (if device_of(g) != 0 {
        decimal(device_of(g) as nat)
    } else {
        lower_of(g.name@)
    })
}

/// How well a graphics backend describes an adapter.
pub open spec fn backend_rank(b: Option<String>) -> int {
    match b {
        Some(s) => if s@ == "Dx12"@ {
            5
        } else if s@ == "Vulkan"@ || s@ == "Metal"@ {
            4
        } else if s@ == "Gl"@ {
            2
        } else if s@ == "BrowserWebGpu"@ {
            1
        } else {
            0
        },
        None => 0,
    }
}

/// How well an entry describes its device, compared in this order: the
/// backend's rank, whether the device id is known, and the length of the
/// driver name in UTF-8 bytes (taken modulo 65536).
pub open spec fn gpu_score(g: GpuInfo) -> int {
    backend_rank(g.backend) * 131072 + (if device_of(g) != 0 {
        65536int
    } else {
        0int
    }) + match g.driver {
        Some(d) => (encode_utf8(d@).len() as usize) as int % 65536,
        None => 0int,
    }
}

fn score(g: &GpuInfo) -> (r: u32)
    ensures
        r as int == gpu_score(*g),
{
    let rank: u32 = match &g.backend {
        Some(b) => if same_text(b.as_str(), "Dx12") {
            5
        } else if same_text(b.as_str(), "Vulkan") || same_text(b.as_str(), "Metal") {
            4
        } else if same_text(b.as_str(), "Gl") {
            2
        } else if same_text(b.as_str(), "BrowserWebGpu") {
            1
        } else {
            0
        },
        None => 0,
    };
    let has_device: u32 = match g.device {
        Some(d) => if d != 0 {
            65536
        } else {
            0
        },
        None => 0,
    };
    let driver: u32 = match &g.driver {
        Some(d) => {
            let ds = d.as_str();
            let n = ds.len();
            assert(ds@ == d@);
            (n % 65536) as u32
        },
        None => 0,
    };
    rank * 131072 + has_device + driver
}

fn key(g: &GpuInfo) -> (r: String)
    ensures
        r@ == gpu_key(*g),
{
    let vendor = match g.vendor {
        Some(v) => v,
        None => 0,
    };
    let device = match g.device {
        Some(d) => d,
        None => 0,
    };
    let head = decimal_string(vendor as u64);
    let tail = if device != 0 {
        decimal_string(device as u64)
    } else {
        lowercase(g.name.as_str())
    };
    let mut s = concat2(head.as_str(), ":");
    s.append(tail.as_str());
    s
}

/// Whether the entries of `w` are of different devices.
pub open spec fn distinct_devices(w: Seq<GpuInfo>) -> bool {
    forall|a: int, b: int| 0 <= a < b < w.len() ==> gpu_key(w[a]) != gpu_key(w[b])
}

/// Whether the device of `f[t]` has an entry in `w`.
pub open spec fn device_covered(f: Seq<GpuInfo>, w: Seq<GpuInfo>, t: int) -> bool {
    exists|a: int| #![trigger w[a]] 0 <= a < w.len() && gpu_key(w[a]) == gpu_key(f[t])
}

/// Whether every device of `f` has an entry in `w`.
pub open spec fn covers_devices(f: Seq<GpuInfo>, w: Seq<GpuInfo>) -> bool {
    forall|t: int| 0 <= t < f.len() ==> #[trigger] device_covered(f, w, t)
}

/// Whether `f[j]` is the first of the best-described entries of its device.
pub open spec fn best_of_device(f: Seq<GpuInfo>, j: int) -> bool {
    0 <= j < f.len() && forall|t: int|
        0 <= t < f.len() && gpu_key(f[t]) == gpu_key(f[j]) ==> gpu_score(f[t]) <= gpu_score(f[j])
            && (t < j ==> gpu_score(f[t]) < gpu_score(f[j]))
}

/// Whether `w[a]` is an entry of `f` that is the first of the best-described
/// entries of its device.
pub open spec fn entry_is_best(f: Seq<GpuInfo>, w: Seq<GpuInfo>, a: int) -> bool {
    exists|j: int| #[trigger] best_of_device(f, j) && w[a] == f[j]
}

/// Whether each entry of `w` is the first of the best-described entries of
/// its device in `f`.
pub open spec fn all_best(f: Seq<GpuInfo>, w: Seq<GpuInfo>) -> bool {
    forall|a: int| 0 <= a < w.len() ==> #[trigger] entry_is_best(f, w, a)
}

/// Whether `w` holds one entry per device of `f`: each the first of the best
/// described entries of its device, whose keys are all different.
pub open spec fn winners_of(f: Seq<GpuInfo>, w: Seq<GpuInfo>) -> bool {
    distinct_devices(w) && covers_devices(f, w) && all_best(f, w)
}

/// Whether a device that has a known vendor and device id is among `w` for
/// vendor `v`.
pub open spec fn vendor_has_real(w: Seq<GpuInfo>, v: u32) -> bool {
    exists|a: int| 0 <= a < w.len() && vendor_of(w[a]) == v && v != 0 && device_of(w[a]) != 0
}

/// The entries of `w` kept: an entry without device id is dropped where its
/// vendor has an entry with one.
pub open spec fn kept(w: Seq<GpuInfo>, s: Seq<GpuInfo>) -> Seq<GpuInfo>
    decreases s.len(),
{
    if s.len() == 0 {
        s
    } else if device_of(s.last()) == 0 && vendor_has_real(w, vendor_of(s.last())) {
        kept(w, s.drop_last())
    } else {
        kept(w, s.drop_last()).push(s.last())
    }
}

/// The display order: by vendor id, device id, then name in lower case.
pub open spec fn gpu_before(a: GpuInfo, b: GpuInfo) -> bool {
    vendor_of(a) < vendor_of(b) || (vendor_of(a) == vendor_of(b) && (device_of(a) < device_of(b)
        || (device_of(a) == device_of(b) && text_less(lower_of(a.name@), lower_of(b.name@)))))
}

proof fn lemma_before_transitive(a: GpuInfo, b: GpuInfo, c: GpuInfo)
    requires
        gpu_before(a, b),
        gpu_before(b, c),
    ensures
        gpu_before(a, c),
{
    if vendor_of(a) == vendor_of(b) && vendor_of(b) == vendor_of(c) && device_of(a) == device_of(b)
        && device_of(b) == device_of(c) {
        lemma_text_less_transitive(lower_of(a.name@), lower_of(b.name@), lower_of(c.name@));
    }
}

fn before(a: &GpuInfo, b: &GpuInfo) -> (r: bool)
    ensures
        r == gpu_before(*a, *b),
{
    let va = match a.vendor {
        Some(v) => v,
        None => 0,
    };
    let vb = match b.vendor {
        Some(v) => v,
        None => 0,
    };
    if va != vb {
        return va < vb;
    }
    let da = match a.device {
        Some(d) => d,
        None => 0,
    };
    let db = match b.device {
        Some(d) => d,
        None => 0,
    };
    if da != db {
        return da < db;
    }
    let la = lowercase(a.name.as_str());
    let lb = lowercase(b.name.as_str());
    is_text_less(la.as_str(), lb.as_str())
}

fn drop_cpu(all: Vec<GpuInfo>) -> (r: Vec<GpuInfo>)
    ensures
        r@ == considered(all@),
{
    let mut any_hw = false;
    let mut i: usize = 0;
    while i < all.len()
        invariant
            i <= all@.len(),
            any_hw <==> exists|k: int| 0 <= k < i && !is_cpu_adapter(all@[k]),
        decreases all@.len() - i,
    {
        if !cpu_adapter(&all[i]) {
            any_hw = true;
        }
        i = i + 1;
    }
    if !any_hw {
        return all;
    }
    let ghost orig = all@;
    let mut rest = all;
    let mut r: Vec<GpuInfo> = Vec::new();
    let ghost mut k: int = 0;
    while rest.len() > 0
        invariant
            0 <= k <= orig.len(),
            rest@ == orig.subrange(k, orig.len() as int),
            r@ == without_cpu(orig.subrange(0, k)),
        decreases rest.len(),
    {
        let g = rest.remove(0);
        proof {
            assert(orig.subrange(0, k + 1).drop_last() =~= orig.subrange(0, k));
            assert(g == orig[k]);
        }
        if !cpu_adapter(&g) {
            r.push(g);
        }
        proof {
            assert(rest@ =~= orig.subrange(k + 1, orig.len() as int));
            k = k + 1;
        }
    }
    assert(orig.subrange(0, orig.len() as int) =~= orig);
    r
}

fn best_per_device(f: Vec<GpuInfo>) -> (r: Vec<GpuInfo>)
    ensures
        winners_of(f@, r@),
{
    let ghost orig = f@;
    let mut rest = f;
    let mut w: Vec<GpuInfo> = Vec::new();
    let mut keys: Vec<String> = Vec::new();
    let mut scores: Vec<u32> = Vec::new();
    let ghost mut idx: Seq<int> = Seq::empty();
    let ghost mut pos: int = 0;
    while rest.len() > 0
        invariant
            0 <= pos <= orig.len(),
            rest@ == orig.subrange(pos, orig.len() as int),
            w@.len() == keys@.len() == scores@.len() == idx.len(),
            forall|a: int| 0 <= a < w@.len() ==> 0 <= #[trigger] idx[a] < pos && w@[a] == orig[idx[a]]
                && keys@[a]@ == gpu_key(w@[a]) && scores@[a] as int == gpu_score(w@[a]),
            forall|a: int, b: int| 0 <= a < b < w@.len() ==> gpu_key(w@[a]) != gpu_key(w@[b]),
            forall|t: int| #![trigger orig[t]] 0 <= t < pos ==> exists|a: int| #![trigger w@[a]] 0 <= a < w@.len() && gpu_key(w@[a]) == gpu_key(orig[t]),
            forall|a: int, t: int|
                #![trigger w@[a], orig[t]]
                0 <= a < w@.len() && 0 <= t < pos && gpu_key(orig[t]) == gpu_key(w@[a]) ==> gpu_score(orig[t])
                    <= gpu_score(w@[a]) && (t < idx[a] ==> gpu_score(orig[t]) < gpu_score(w@[a])),
        decreases rest.len(),
    {
        let g = rest.remove(0);
        proof {
            assert(g == orig[pos]);
            assert(rest@ =~= orig.subrange(pos + 1, orig.len() as int));
        }
        let k = key(&g);
        let s = score(&g);
        let mut found: Option<usize> = None;
        let mut a: usize = 0;
        while a < keys.len()
            invariant
                a <= keys@.len(),
                found matches Some(x) ==> x < keys@.len() && keys@[x as int]@ == k@,
                found is None ==> forall|b: int| 0 <= b < a ==> keys@[b]@ != k@,
            decreases keys@.len() - a,
        {
            if found.is_none() && same_text(keys[a].as_str(), k.as_str()) {
                found = Some(a);
            }
            a = a + 1;
        }
        let ghost old_w = w@;
        let ghost old_idx = idx;
        let ghost old_keys = keys@;
        let ghost old_scores = scores@;
        let ghost mut replaced = false;
        match found {
            Some(a) => {
                proof {
                    assert(0 <= idx[a as int] < pos);
                }
                if s > scores[a] {
                    w.set(a, g);
                    scores.set(a, s);
                    proof {
                        replaced = true;
                        idx = idx.update(a as int, pos);
                        assert forall|t: int| 0 <= t <= pos && gpu_key(orig[t]) == gpu_key(w@[a as int]) implies gpu_score(orig[t])
                            <= gpu_score(w@[a as int]) && (t < pos ==> gpu_score(orig[t]) < gpu_score(w@[a as int])) by {
                            if t < pos {
                                assert(0 <= old_idx[a as int] < pos);
                                assert(gpu_key(orig[t]) == gpu_key(old_w[a as int]));
                            }
                        }
                    }
                }
                proof {
                    assert forall|b: int| 0 <= b < old_w.len() implies gpu_key(#[trigger] w@[b]) == gpu_key(old_w[b]) by {
                        assert(0 <= old_idx[b] < pos);
                    }
                }
            },
            None => {
                proof {
                    assert forall|t: int| 0 <= t < pos implies gpu_key(#[trigger] orig[t]) != k@ by {
                        if gpu_key(orig[t]) == k@ {
                            let b = choose|b: int| #![trigger w@[b]] 0 <= b < w@.len() && gpu_key(w@[b]) == gpu_key(orig[t]);
                            assert(0 <= idx[b] < pos);
                            assert(keys@[b]@ == k@);
                        }
                    }
                }
                w.push(g);
                keys.push(k);
                scores.push(s);
                proof {
                    idx = idx.push(pos);
                    assert forall|b: int| 0 <= b < old_w.len() implies gpu_key(#[trigger] w@[b]) == gpu_key(old_w[b]) by {
                    }
                }
            },
        }
        proof {
            assert forall|t: int| #![trigger orig[t]] 0 <= t < pos + 1 implies exists|b: int| #![trigger w@[b]] 0 <= b < w@.len() && gpu_key(w@[b]) == gpu_key(orig[t]) by {
                if t < pos {
                    let b = choose|b: int| #![trigger old_w[b]] 0 <= b < old_w.len() && gpu_key(old_w[b]) == gpu_key(orig[t]);
                    assert(gpu_key(w@[b]) == gpu_key(old_w[b]));
                } else {
                    match found {
                        Some(a) => {
                            assert(0 <= old_idx[a as int] < pos);
                            assert(gpu_key(w@[a as int]) == gpu_key(orig[t]));
                        },
                        None => {
                            assert(gpu_key(w@[w@.len() - 1]) == gpu_key(orig[t]));
                        },
                    }
                }
            }
            assert forall|x: int, y: int| 0 <= x < y < w@.len() implies gpu_key(w@[x]) != gpu_key(
                w@[y],
            ) by {
                assert(0 <= old_idx[x] < pos);
                assert(gpu_key(w@[x]) == gpu_key(old_w[x]));
                if y < old_w.len() {
                    assert(0 <= old_idx[y] < pos);
                    assert(gpu_key(w@[y]) == gpu_key(old_w[y]));
                } else {
                    assert(old_keys[x]@ == gpu_key(old_w[x]));
                }
            }
            assert forall|x: int, t: int|
                0 <= x < w@.len() && 0 <= t < pos + 1 && gpu_key(orig[t]) == gpu_key(w@[x]) implies gpu_score(
                orig[t],
            ) <= gpu_score(w@[x]) && (t < idx[x] ==> gpu_score(orig[t]) < gpu_score(w@[x])) by {
                if x < old_w.len() {
                    assert(0 <= old_idx[x] < pos);
                    assert(old_keys[x]@ == gpu_key(old_w[x]));
                    assert(old_scores[x] as int == gpu_score(old_w[x]));
                    if found == Some(x as usize) && replaced {
                        assert(w@[x] == orig[pos]);
                    } else {
                        assert(w@[x] == old_w[x]);
                        assert(idx[x] == old_idx[x]);
                        if t == pos {
                            assert(gpu_key(orig[pos]) == k@);
                            match found {
                                Some(a) => {
                                    if a as int != x {
                                        assert(0 <= old_idx[a as int] < pos);
                                        assert(old_keys[a as int]@ == gpu_key(old_w[a as int]));
                                        assert(false);
                                    }
                                },
                                None => {
                                    assert(old_keys[x]@ != k@);
                                },
                            }
                        } else {
                            assert(gpu_key(orig[t]) == gpu_key(old_w[x]));
                        }
                    }
                } else {
                    assert(found is None);
                    assert(w@[x] == orig[pos]);
                    assert(idx[x] == pos);
                }
            }
            pos = pos + 1;
        }
    }
    proof {
        assert(pos == orig.len());
        assert forall|t: int| 0 <= t < orig.len() implies #[trigger] device_covered(orig, w@, t) by {
            assert(0 <= t < pos);
            let a = choose|a: int| #![trigger w@[a]] 0 <= a < w@.len() && gpu_key(w@[a]) == gpu_key(orig[t]);
            assert(0 <= a < w@.len());
        }
        assert forall|a: int| 0 <= a < w@.len() implies #[trigger] entry_is_best(orig, w@, a) by {
            let j = idx[a];
            assert(0 <= j < orig.len() && w@[a] == orig[j]);
            assert forall|t: int|
                0 <= t < orig.len() && gpu_key(orig[t]) == gpu_key(orig[j]) implies gpu_score(orig[t])
                    <= gpu_score(orig[j]) && (t < j ==> gpu_score(orig[t]) < gpu_score(orig[j])) by {
                assert(gpu_key(orig[t]) == gpu_key(w@[a]));
            }
            assert(best_of_device(orig, j));
        }
        assert(all_best(orig, w@));
        assert(covers_devices(orig, w@));
        assert(forall|a: int, b: int| 0 <= a < b < w@.len() ==> gpu_key(w@[a]) != gpu_key(w@[b]));
        assert(orig == f@);
        assert(winners_of(orig, w@));
    }
    w
}


fn has_real(w: &Vec<GpuInfo>, v: u32) -> (r: bool)
    ensures
        r == vendor_has_real(w@, v),
{
    let mut i: usize = 0;
    while i < w.len()
        invariant
            i <= w@.len(),
            forall|k: int| 0 <= k < i ==> !(vendor_of(w@[k]) == v && v != 0 && device_of(w@[k]) != 0),
        decreases w@.len() - i,
    {
        let vi = match w[i].vendor {
            Some(x) => x,
            None => 0,
        };
        let di = match w[i].device {
            Some(x) => x,
            None => 0,
        };
        if vi == v && v != 0 && di != 0 {
            return true;
        }
        i = i + 1;
    }
    false
}

fn keep_real(w: Vec<GpuInfo>) -> (r: Vec<GpuInfo>)
    ensures
        r@ == kept(w@, w@),
{
    let mut drop: Vec<bool> = Vec::new();
    let mut i: usize = 0;
    while i < w.len()
        invariant
            i <= w@.len(),
            drop@.len() == i,
            forall|k: int| 0 <= k < i ==> drop@[k] == (device_of(w@[k]) == 0 && vendor_has_real(w@, vendor_of(w@[k]))),
        decreases w@.len() - i,
    {
        let vi = match w[i].vendor {
            Some(x) => x,
            None => 0,
        };
        let di = match w[i].device {
            Some(x) => x,
            None => 0,
        };
        let d = di == 0 && has_real(&w, vi);
        drop.push(d);
        i = i + 1;
    }
    let ghost orig = w@;
    let mut rest = w;
    let mut r: Vec<GpuInfo> = Vec::new();
    let mut k: usize = 0;
    while rest.len() > 0
        invariant
            k <= orig.len(),
            drop@.len() == orig.len(),
            forall|q: int| 0 <= q < orig.len() ==> drop@[q] == (device_of(orig[q]) == 0 && vendor_has_real(orig, vendor_of(orig[q]))),
            rest@ == orig.subrange(k as int, orig.len() as int),
            r@ == kept(orig, orig.subrange(0, k as int)),
        decreases rest.len(),
    {
        assert(rest@.len() == orig.len() - k);
        let g = rest.remove(0);
        proof {
            assert(orig.subrange(0, k + 1).drop_last() =~= orig.subrange(0, k as int));
            assert(g == orig[k as int]);
        }
        if !drop[k] {
            r.push(g);
        }
        assert(rest@ =~= orig.subrange(k + 1, orig.len() as int));
        k = k + 1;
    }
    assert(orig.subrange(0, orig.len() as int) =~= orig);
    r
}

/// Whether `s` is in display order.
pub open spec fn in_display_order(s: Seq<GpuInfo>) -> bool {
    forall|i: int, j: int| 0 <= i < j < s.len() ==> !gpu_before(s[j], s[i])
}

fn sort_for_display(items: Vec<GpuInfo>) -> (r: Vec<GpuInfo>)
    ensures
        r@.to_multiset() == items@.to_multiset(),
        in_display_order(r@),
{
    broadcast use group_to_multiset_ensures;

    let mut rest = items;
    let mut out: Vec<GpuInfo> = Vec::new();
    while rest.len() > 0
        invariant
            out@.to_multiset().add(rest@.to_multiset()) == items@.to_multiset(),
            in_display_order(out@),
            forall|i: int, j: int|
                0 <= i < out@.len() && 0 <= j < rest@.len() ==> !gpu_before(rest@[j], out@[i]),
        decreases rest.len(),
    {
        let mut best: usize = 0;
        let mut k: usize = 1;
        proof {
            crate::settings::lemma_text_less_irreflexive(lower_of(rest@[0].name@));
        }
        while k < rest.len()
            invariant
                0 < rest@.len(),
                best < rest@.len(),
                1 <= k <= rest@.len(),
                forall|j: int| 0 <= j < k ==> !gpu_before(rest@[j], rest@[best as int]),
            decreases rest.len() - k,
        {
            if before(&rest[k], &rest[best]) {
                proof {
                    assert forall|j: int| 0 <= j < k implies !gpu_before(rest@[j], rest@[k as int]) by {
                        if gpu_before(rest@[j], rest@[k as int]) {
                            lemma_before_transitive(rest@[j], rest@[k as int], rest@[best as int]);
                        }
                    }
                    assert(!gpu_before(rest@[k as int], rest@[k as int])) by {
                        crate::settings::lemma_text_less_irreflexive(lower_of(rest@[k as int].name@));
                    }
                }
                best = k;
            }
            k = k + 1;
        }
        let ghost before_rest = rest@;
        let ghost out_before = out@;
        let item = rest.remove(best);
        out.push(item);
        proof {
            before_rest.to_multiset_ensures();
            out_before.to_multiset_ensures();
            assert(rest@ == before_rest.remove(best as int));
            assert(out@ == out_before.push(item));
            assert(before_rest.remove(best as int).to_multiset() =~= before_rest.to_multiset().remove(
                before_rest[best as int],
            ));
            assert(out@.to_multiset() =~= out_before.to_multiset().insert(item));
            assert(before_rest.to_multiset().remove(before_rest[best as int]).insert(
                before_rest[best as int],
            ) =~= before_rest.to_multiset());
            assert(out@.to_multiset().add(rest@.to_multiset()) =~= items@.to_multiset());
            assert forall|i: int, j: int|
                0 <= i < out@.len() && 0 <= j < rest@.len() implies !gpu_before(rest@[j], out@[i]) by {
                let jj = if j < best { j } else { j + 1 };
                assert(rest@[j] == before_rest[jj]);
            }
            assert forall|i: int, j: int| 0 <= i < j < out@.len() implies !gpu_before(out@[j], out@[i]) by {
                if j == out@.len() - 1 {
                    assert(out@[j] == before_rest[best as int]);
                }
            }
        }
    }
    proof {
        assert(rest@.to_multiset() =~= vstd::multiset::Multiset::empty());
        assert(out@.to_multiset().add(rest@.to_multiset()) =~= out@.to_multiset());
    }
    out
}

/// The adapters to show, out of all the graphics backends report: the
/// hardware adapters where there is any (else all); one entry per device,
/// the first of its best-described entries; without the entries that lack a
/// device id where their vendor has one that has it; in display order.
pub fn consolidate_gpus(all: Vec<GpuInfo>) -> (r: Vec<GpuInfo>)
    ensures
        exists|w: Seq<GpuInfo>|
            #[trigger] winners_of(considered(all@), w) && r@.to_multiset() == kept(w, w).to_multiset(),
        in_display_order(r@),
{
    let considered_list = drop_cpu(all);
    let winners = best_per_device(considered_list);
    let ghost w = winners@;
    let shown = keep_real(winners);
    let r = sort_for_display(shown);
    assert(winners_of(considered(all@), w) && r@.to_multiset() == kept(w, w).to_multiset());
    r
}

} // verus!
