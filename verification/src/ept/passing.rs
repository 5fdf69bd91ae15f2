//! What is built as planned passes the scan.

use vstd::prelude::*;

use super::builder;
use super::builder::BuildPlan;
use super::entry;
use super::entry::EptLevel;
use super::mtrr;
use super::page;
use super::page::TablePage;
use super::scan;
use super::scan::{BaseShape, LeafRecord, ScanState};
use super::tree;
use super::tree::TableMap;
use super::walker::EptValidationError;

verus! {

broadcast use super::address::group_host_addresses;

/// Whether a scan has come past a place: it begins before the limit, or at the
/// limit and higher than a level.
spec fn passed(place: (EptLevel, int), limit: int, code: int) -> bool {
    place.1 < limit || place.1 == limit && place.0.spec_code() > code
}

/// Whether a table stands at a place that a scan has come past.
spec fn reached(tables: TableMap, hpa: u64, limit: int, code: int) -> bool {
    exists|place: (EptLevel, int)| #[trigger]
        tables.contains_key(place) && tables[place] == hpa && passed(place, limit, code)
}

/// A scan has visited the tables that it has come past, each once.
spec fn visits(visited: Seq<u64>, tables: TableMap, limit: int, code: int) -> bool {
    &&& visited.no_duplicates()
    &&& forall|hpa: u64| #[trigger] visited.contains(hpa) == reached(tables, hpa, limit, code)
}

/// The leaves that a scan has found cover the aperture up to a limit.
spec fn covers(leaves: Seq<LeafRecord>, limit: int, aperture_end: u64) -> bool {
    &&& scan::contiguous(leaves)
    &&& scan::cursor(leaves, leaves.len() as int) == if limit < aperture_end {
        limit
    } else {
        aperture_end as int
    }
}

/// What has to be so when a scan has come to a limit.
spec fn in_step(state: ScanState, tables: TableMap, plan: BuildPlan, limit: int, code: int) -> bool {
    &&& visits(state.visited, tables, limit, code)
    &&& covers(state.leaves, limit, plan.aperture_end)
}

proof fn lemma_same_places(
    visited: Seq<u64>,
    tables: TableMap,
    limit: int,
    code: int,
    other_limit: int,
    other_code: int,
)
    requires
        visits(visited, tables, limit, code),
        forall|place: (EptLevel, int)| #[trigger]
            tables.contains_key(place) ==> passed(place, limit, code) == passed(
                place,
                other_limit,
                other_code,
            ),
    ensures
        visits(visited, tables, other_limit, other_code),
{
    assert forall|hpa: u64| #[trigger] visited.contains(hpa) == reached(
        tables,
        hpa,
        other_limit,
        other_code,
    ) by {
        if reached(tables, hpa, limit, code) {
            let place = choose|place: (EptLevel, int)| #[trigger]
                tables.contains_key(place) && tables[place] == hpa && passed(place, limit, code);
            assert(passed(place, other_limit, other_code));
        }
        if reached(tables, hpa, other_limit, other_code) {
            let place = choose|place: (EptLevel, int)| #[trigger]
                tables.contains_key(place) && tables[place] == hpa && passed(
                    place,
                    other_limit,
                    other_code,
                );
            assert(passed(place, limit, code));
        }
    }
}

/// The region of a higher level that holds the region of a lower one.
proof fn lemma_nested_regions(low: EptLevel, high: EptLevel, address: int)
    requires
        low.spec_code() <= high.spec_code(),
        0 <= address,
    ensures
        tree::region_start(high, tree::region_start(low, address)) == tree::region_start(
            high,
            address,
        ),
        address % tree::region(high) == 0 ==> address % tree::region(low) == 0,
{
    let a = tree::region(low);
    let b = tree::region(high);
    let r = address % a;
    let s = address % b;
    let steps = high.spec_code() - low.spec_code();
    let parts: int = if steps == 0 {
        1
    } else if steps == 1 {
        0x200
    } else if steps == 2 {
        0x4_0000
    } else {
        0x800_0000
    };
    assert(a * parts == b) by {
        match low {
            EptLevel::Pml4 => {},
            EptLevel::Pdpt => {},
            EptLevel::Pd => {},
            EptLevel::Pt => {},
        }
    }
    vstd::arithmetic::div_mod::lemma_mod_mod(address, a, parts);
    assert(s % a == r);
    vstd::arithmetic::div_mod::lemma_mod_bound(address, b);
    vstd::arithmetic::div_mod::lemma_mod_bound(s, a);
    vstd::arithmetic::div_mod::lemma_mod_decreases(s as nat, a as nat);
    assert((address - r) % b == s - r) by {
        let whole = address / b;
        vstd::arithmetic::div_mod::lemma_fundamental_div_mod(address, b);
        assert(whole * b == b * whole) by (nonlinear_arith);
        assert(address - r == whole * b + (s - r));
        assert(0 <= s - r < b);
        vstd::arithmetic::div_mod::lemma_fundamental_div_mod_converse(
            address - r,
            b,
            whole,
            s - r,
        );
    }
}

/// Above every place, the place of every higher level is filled.
proof fn lemma_climb(
    pages: Seq<TablePage>,
    tables: TableMap,
    plan: BuildPlan,
    place: (EptLevel, int),
    level: EptLevel,
)
    requires
        builder::built(pages, tables, plan, EptLevel::Pml4, 0, 512),
        tables.contains_key(place),
        place.0.spec_code() <= level.spec_code(),
    ensures
        tables.contains_key((level, tree::region_start(level, place.1))),
    decreases level.spec_code() - place.0.spec_code(),
{
    assert(tables.contains_key((place.0, place.1)));
    assert(tree::is_place(place.0, place.1));
    if place.0 == level {
        assert(tree::region_start(level, place.1) == place.1);
    } else {
        assert(builder::place_inside(tables, EptLevel::Pml4, 0, 512, place.0, place.1));
        let parent = tree::above(place.0).unwrap();
        let higher = (parent, tree::region_start(parent, place.1));
        assert(tables.contains_key(higher));
        lemma_climb(pages, tables, plan, higher, level);
        lemma_nested_regions(parent, level, place.1);
    }
}

/// What an entry governs holds no tables but those below it, and at the first
/// entry those above it.
proof fn lemma_places_of_entry(
    pages: Seq<TablePage>,
    tables: TableMap,
    plan: BuildPlan,
    level: EptLevel,
    base: int,
    index: int,
    place: (EptLevel, int),
)
    requires
        builder::built(pages, tables, plan, EptLevel::Pml4, 0, 512),
        tables.contains_key((level, base)),
        0 <= index < 512,
        tables.contains_key(place),
        base + index * level.spec_span() <= place.1 < base + (index + 1) * level.spec_span(),
    ensures
        place.0.spec_code() >= level.spec_code() ==> index == 0 && place.1 == base,
        place.0.spec_code() < level.spec_code() ==> level.spec_next() is Some
            && tables.contains_key(tree::child_place(level, base, index)),
{
    let span = level.spec_span() as int;
    assert(tree::is_place(level, base));
    assert(tables.contains_key((place.0, place.1)));
    assert(tree::is_place(place.0, place.1));
    assert((index + 1) * span == index * span + span) by (nonlinear_arith);
    assert(0 <= index * span <= 511 * span) by (nonlinear_arith)
        requires
            0 <= index <= 511,
            span > 0,
    ;
    scan::lemma_index_in_region(level, base, index, place.1 as u64);
    if place.0.spec_code() >= level.spec_code() {
        lemma_nested_regions(level, place.0, place.1);
        let offset = place.1 - base;
        assert(place.1 % tree::region(level) == 0);
        assert(offset == 0) by {
            vstd::arithmetic::div_mod::lemma_fundamental_div_mod(place.1, tree::region(level));
            vstd::arithmetic::div_mod::lemma_fundamental_div_mod(base, tree::region(level));
            let region = tree::region(level);
            let left = place.1 / region;
            let right = base / region;
            assert(left == right) by (nonlinear_arith)
                requires
                    region * left - region * right == offset,
                    0 <= offset < region,
            ;
        }
        assert(index == 0) by (nonlinear_arith)
            requires
                index * span <= 0,
                span > 0,
                index >= 0,
        ;
    } else {
        let child = level.spec_next().unwrap();
        lemma_climb(pages, tables, plan, place, child);
        assert(tree::region(child) == span);
        assert(tree::region_start(child, place.1) == base + index * span);
    }
}

/// The scan of a table that was built, and of all below it, finds nothing
/// wrong.
proof fn lemma_scan_table(
    pages: Seq<TablePage>,
    tables: TableMap,
    plan: BuildPlan,
    execute_only: bool,
    level: EptLevel,
    base: int,
    state: ScanState,
) -> (after: ScanState)
    requires
        entry::supported_width(plan.bits),
        mtrr::exact_cover(plan.types, plan.aperture_end),
        builder::built(pages, tables, plan, EptLevel::Pml4, 0, 512),
        tables.contains_key((level, base)),
        in_step(state, tables, plan, base, level.spec_code() as int),
    ensures
        scan::scanned(
            builder::built_hierarchy(pages, tables, plan, execute_only),
            BaseShape { aperture_end: plan.aperture_end, types: plan.types },
            level,
            tables[(level, base)],
            base,
            state,
        ) == Ok::<ScanState, EptValidationError>(after),
        in_step(after, tables, plan, base + tree::region(level), 4),
    decreases level.spec_code(), 513int,
{
    let table = tables[(level, base)];
    assert(!state.visited.contains(table)) by {
        if reached(tables, table, base, level.spec_code() as int) {
            let place = choose|place: (EptLevel, int)| #[trigger]
                tables.contains_key(place) && tables[place] == table && passed(
                    place,
                    base,
                    level.spec_code() as int,
                );
            assert(tables.contains_key((level, base)));
            assert(place == (level, base));
        }
    }
    let start = ScanState { visited: state.visited.push(table), ..state };
    let code = level.spec_code() - 1;
    assert(visits(start.visited, tables, base, code)) by {
        assert forall|hpa: u64| #[trigger] start.visited.contains(hpa) == reached(
            tables,
            hpa,
            base,
            code,
        ) by {
            if state.visited.contains(hpa) {
                let k = choose|k: int| 0 <= k < state.visited.len() && state.visited[k] == hpa;
                assert(start.visited[k] == hpa);
                let place = choose|place: (EptLevel, int)| #[trigger]
                    tables.contains_key(place) && tables[place] == hpa && passed(
                        place,
                        base,
                        level.spec_code() as int,
                    );
                assert(passed(place, base, code));
            } else if hpa == table {
                assert(start.visited[state.visited.len() as int] == hpa);
                assert(tables.contains_key((level, base)) && passed((level, base), base, code));
            } else {
                assert(!start.visited.contains(hpa));
                if reached(tables, hpa, base, code) {
                    let place = choose|place: (EptLevel, int)| #[trigger]
                        tables.contains_key(place) && tables[place] == hpa && passed(
                            place,
                            base,
                            code,
                        );
                    if place.1 == base && place.0.spec_code() == level.spec_code() {
                        assert(place == (level, base));
                    } else {
                        assert(passed(place, base, level.spec_code() as int));
                        assert(reached(tables, hpa, base, level.spec_code() as int));
                    }
                }
            }
        }
    }
    assert(0 * level.spec_span() == 0);
    lemma_scan_entries(pages, tables, plan, execute_only, level, base, 0, start)
}

#[verifier::rlimit(60)]
#[verifier::spinoff_prover]
proof fn lemma_scan_entries(
    pages: Seq<TablePage>,
    tables: TableMap,
    plan: BuildPlan,
    execute_only: bool,
    level: EptLevel,
    base: int,
    index: int,
    state: ScanState,
) -> (after: ScanState)
    requires
        entry::supported_width(plan.bits),
        mtrr::exact_cover(plan.types, plan.aperture_end),
        builder::built(pages, tables, plan, EptLevel::Pml4, 0, 512),
        tables.contains_key((level, base)),
        0 <= index <= 512,
        in_step(
            state,
            tables,
            plan,
            base + index * level.spec_span(),
            if index == 0 {
                level.spec_code() - 1
            } else {
                4
            },
        ),
    ensures
        scan::scanned_entries(
            builder::built_hierarchy(pages, tables, plan, execute_only),
            BaseShape { aperture_end: plan.aperture_end, types: plan.types },
            level,
            tables[(level, base)],
            base,
            index,
            state,
        ) == Ok::<ScanState, EptValidationError>(after),
        in_step(after, tables, plan, base + tree::region(level), 4),
    decreases level.spec_code(), 512 - index,
{
    let span = level.spec_span() as int;
    if index == 512 {
        state
    } else {
        let start = base + index * span;
        let code = if index == 0 {
            level.spec_code() - 1
        } else {
            4
        };
        assert(base + (index + 1) * span == start + span) by (nonlinear_arith)
            requires
                start == base + index * span,
        ;
        assert(0 <= index * span) by (nonlinear_arith)
            requires
                index >= 0,
                span > 0,
        ;
        assert(tree::is_place(level, base));
        assert(builder::slot_built(pages, tables, plan, level, base, index));
        builder::lemma_slot_decodes(pages, tables, plan, execute_only, level, base, index);
        let below = tree::child_place(level, base, index);
        if level.spec_next() is Some && tables.contains_key(below) {
            let child = level.spec_next().unwrap();
            assert(below == (child, start));
            assert(tree::region(child) == span);
            assert(visits(state.visited, tables, start, child.spec_code() as int)) by {
                if index != 0 {
                    assert forall|place: (EptLevel, int)| #[trigger]
                        tables.contains_key(place) implies passed(place, start, 4) == passed(
                        place,
                        start,
                        child.spec_code() as int,
                    ) by {
                        if place.1 == start && place.0.spec_code() > child.spec_code() {
                            lemma_places_of_entry(
                                pages,
                                tables,
                                plan,
                                level,
                                base,
                                index,
                                place,
                            );
                        }
                    }
                    lemma_same_places(
                        state.visited,
                        tables,
                        start,
                        4,
                        start,
                        child.spec_code() as int,
                    );
                }
            }
            let inner = lemma_scan_table(
                pages,
                tables,
                plan,
                execute_only,
                child,
                start,
                state,
            );
            lemma_scan_entries(pages, tables, plan, execute_only, level, base, index + 1, inner)
        } else {
            assert(visits(state.visited, tables, start + span, 4)) by {
                assert forall|place: (EptLevel, int)| #[trigger]
                    tables.contains_key(place) implies passed(place, start, code) == passed(
                    place,
                    start + span,
                    4,
                ) by {
                    if start <= place.1 < start + span {
                        lemma_places_of_entry(pages, tables, plan, level, base, index, place);
                    }
                }
                lemma_same_places(state.visited, tables, start, code, start + span, 4);
            }
            if start >= plan.aperture_end {
                lemma_scan_entries(
                    pages,
                    tables,
                    plan,
                    execute_only,
                    level,
                    base,
                    index + 1,
                    state,
                )
            } else {
                let size = builder::chosen_leaf(plan, level, start).unwrap();
                assert(size.bytes() == span);
                let leaf = scan::leaf_record(
                    start,
                    super::address::HostPhysicalAddress::at(start as u64),
                    size,
                    super::address::EptPermissions::full(),
                    mtrr::uniform_over(plan.types, start, start + size.bytes()).unwrap(),
                );
                let next = ScanState { leaves: state.leaves.push(leaf), ..state };
                assert(scan::contiguous(next.leaves)) by {
                    assert forall|j: int| 0 <= j < next.leaves.len() implies (
                    #[trigger] next.leaves[j]).start == scan::cursor(next.leaves, j) by {
                        if j < state.leaves.len() {
                            assert(next.leaves[j] == state.leaves[j]);
                            assert(state.leaves[j].start == scan::cursor(state.leaves, j));
                        }
                    }
                }
                lemma_scan_entries(
                    pages,
                    tables,
                    plan,
                    execute_only,
                    level,
                    base,
                    index + 1,
                    next,
                )
            }
        }
    }
}

/// Tables that were built as planned pass the scan: it finds nothing wrong,
/// the leaves cover the aperture, and there is no table that it does not reach.
pub proof fn law_built_view_passes(
    pages: Seq<TablePage>,
    tables: TableMap,
    plan: BuildPlan,
    execute_only: bool,
)
    requires
        entry::supported_width(plan.bits),
        mtrr::exact_cover(plan.types, plan.aperture_end),
        plan.aperture_end <= 0x1_0000_0000_0000,
        page::distinct_pages(pages, plan.bits),
        builder::built(pages, tables, plan, EptLevel::Pml4, 0, 512),
        tree::all_in(pages, tables),
    ensures
        scan::view_passes(
            builder::built_hierarchy(pages, tables, plan, execute_only),
            BaseShape { aperture_end: plan.aperture_end, types: plan.types },
        ),
{
    let first = ScanState { visited: Seq::<u64>::empty(), leaves: Seq::<LeafRecord>::empty() };
    assert(visits(first.visited, tables, 0, 4)) by {
        assert forall|hpa: u64| #[trigger] first.visited.contains(hpa) == reached(
            tables,
            hpa,
            0,
            4,
        ) by {
            if reached(tables, hpa, 0, 4) {
                let place = choose|place: (EptLevel, int)| #[trigger]
                    tables.contains_key(place) && tables[place] == hpa && passed(place, 0, 4);
                assert(tables.contains_key((place.0, place.1)));
                assert(tree::is_place(place.0, place.1));
            }
        }
    }
    let after = lemma_scan_table(
        pages,
        tables,
        plan,
        execute_only,
        EptLevel::Pml4,
        0,
        first,
    );
    let limit = tree::region(EptLevel::Pml4);
    let hpas = pages.map_values(|held: TablePage| held.hpa);
    assert(hpas.no_duplicates()) by {
        assert forall|i: int, j: int| 0 <= i < hpas.len() && 0 <= j < hpas.len() && i
            != j implies hpas[i] != hpas[j] by {
            if i < j {
                assert(pages[i].hpa != pages[j].hpa);
            } else {
                assert(pages[j].hpa != pages[i].hpa);
            }
        }
    }
    assert forall|hpa: u64| after.visited.contains(hpa) == hpas.contains(hpa) by {
        if after.visited.contains(hpa) {
            assert(reached(tables, hpa, limit, 4));
            let place = choose|place: (EptLevel, int)| #[trigger]
                tables.contains_key(place) && tables[place] == hpa && passed(place, limit, 4);
            assert(tables.contains_key((place.0, place.1)));
            assert(page::has_page(pages, hpa));
            let i = choose|i: int| 0 <= i < pages.len() && #[trigger] pages[i].hpa == hpa;
            assert(hpas[i] == hpa);
        }
        if hpas.contains(hpa) {
            let i = choose|i: int| 0 <= i < hpas.len() && hpas[i] == hpa;
            assert(pages[i].hpa == hpa);
            assert(page::has_page(pages, hpa));
            assert(tree::placed(tables, hpa));
            let place = choose|place: (EptLevel, int)| #[trigger]
                tables.contains_key(place) && tables[place] == hpa;
            assert(tables.contains_key((place.0, place.1)));
            assert(tree::is_place(place.0, place.1));
            assert(passed(place, limit, 4));
            assert(reached(tables, hpa, limit, 4));
        }
    }
    assert(after.visited.to_set() =~= hpas.to_set());
    after.visited.unique_seq_to_set();
    hpas.unique_seq_to_set();
}

} // verus!
