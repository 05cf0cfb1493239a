//! The head-of-file pre-scan — dialect detection and embedded override
//! harvesting — and the top-level rewrite of one file.

use vstd::prelude::*;
use crate::patterns::{scan_override, override_scan, OverrideScan};
use crate::slicers::{
    dialect_output, identify_dialect, identify_slicer_marker, Dialect, PreProcessorImpl,
};
use crate::text::{trim, trimmed, views_of};
use crate::types::{
    AccelerationControl, AccelerationSettings, FeatureType, PreprocessError, ZHopConfig,
};

verus! {

/// How many consecutive non-matching lines the pre-scan tolerates after an
/// override before it stops reading.
pub const SCAN_TOLERANCE: u8 = 3;

/// The dialect the selected processor implements, if one was selected.
pub open spec fn impl_dialect(p: Option<PreProcessorImpl>) -> Option<Dialect> {
    match p {
        None => None,
        Some(q) => Some(q.dialect()),
    }
}

/// State of the pre-scan: the dialect found so far, the overrides harvested
/// so far, and how many more non-matching lines are tolerated.
#[verifier::ext_equal]
pub ghost struct ScanState {
    pub dialect: Option<Dialect>,
    pub ov: Map<FeatureType, AccelerationControl>,
    pub tolerance: nat,
}

/// The pre-scan before the first line.
pub open spec fn initial_scan() -> ScanState {
    ScanState { dialect: None, ov: Map::empty(), tolerance: SCAN_TOLERANCE as nat }
}

/// The head-of-file pre-scan from line `i` on.  Every examined line feeds
/// dialect detection (first match wins) and is tested as an override
/// comment: the first override for a feature wins and resets the tolerance;
/// a malformed override aborts the run; a non-matching line is free until
/// the first override has been seen, and afterwards uses up tolerance — the
/// line that finds it exhausted stops the scan.
pub open spec fn prescan(lines: Seq<Seq<char>>, i: int, st: ScanState) -> Result<
    ScanState,
    PreprocessError,
>
    decreases lines.len() - i,
{
    if 0 <= i < lines.len() {
        let t = trimmed(lines[i]);
        let d = if st.dialect is Some {
            st.dialect
        } else {
            identify_dialect(t)
        };
        match scan_override(t) {
            OverrideScan::Found(f, c) => prescan(
                lines,
                i + 1,
                ScanState {
                    dialect: d,
                    ov: if st.ov.contains_key(f) {
                        st.ov
                    } else {
                        st.ov.insert(f, c)
                    },
                    tolerance: SCAN_TOLERANCE as nat,
                },
            ),
            OverrideScan::BadValue => Err(PreprocessError::InvalidNumber),
            OverrideScan::BadFeature => Err(PreprocessError::InvalidFeatureType),
            OverrideScan::NotOverride => {
                if st.ov != Map::<FeatureType, AccelerationControl>::empty() {
                    if st.tolerance == 0 {
                        Ok(ScanState { dialect: d, ov: st.ov, tolerance: 0 })
                    } else {
                        prescan(
                            lines,
                            i + 1,
                            ScanState { dialect: d, ov: st.ov, tolerance: (st.tolerance - 1) as nat },
                        )
                    }
                } else {
                    prescan(lines, i + 1, ScanState { dialect: d, ov: st.ov, tolerance: st.tolerance })
                }
            },
        }
    } else {
        Ok(st)
    }
}

/// What processing a whole file must yield: the pre-scan selects a dialect
/// and harvests overrides; the overrides win over the external settings on
/// collision; the selected dialect's engine rewrites every line.  A
/// malformed override, and a file whose producer stays unknown, abort the
/// run with the matching error.
pub open spec fn spec_process(
    lines: Seq<Seq<char>>,
    ext: Map<FeatureType, AccelerationControl>,
    zhop: ZHopConfig,
) -> Result<Seq<Seq<char>>, PreprocessError> {
    match prescan(lines, 0, initial_scan()) {
        Err(e) => Err(e),
        Ok(sc) => match sc.dialect {
            None => Err(PreprocessError::UnknownSlicer),
            Some(d) => Ok(dialect_output(d, ext.union_prefer_right(sc.ov), zhop, lines)),
        },
    }
}

proof fn lemma_prescan_no_dialect(lines: Seq<Seq<char>>, i: int, st: ScanState)
    requires
        st.dialect is None,
        forall|j: int| 0 <= j < lines.len() ==> identify_dialect(trimmed(#[trigger] lines[j])) is None,
    ensures
        prescan(lines, i, st) matches Ok(sc) ==> sc.dialect is None,
    decreases lines.len() - i,
{
    if 0 <= i < lines.len() {
        let t = trimmed(lines[i]);
        match scan_override(t) {
            OverrideScan::Found(f, c) => {
                lemma_prescan_no_dialect(
                    lines,
                    i + 1,
                    ScanState {
                        dialect: None,
                        ov: if st.ov.contains_key(f) {
                            st.ov
                        } else {
                            st.ov.insert(f, c)
                        },
                        tolerance: SCAN_TOLERANCE as nat,
                    },
                );
            },
            OverrideScan::NotOverride => {
                if st.ov != Map::<FeatureType, AccelerationControl>::empty() {
                    if st.tolerance != 0 {
                        lemma_prescan_no_dialect(
                            lines,
                            i + 1,
                            ScanState {
                                dialect: None,
                                ov: st.ov,
                                tolerance: (st.tolerance - 1) as nat,
                            },
                        );
                    }
                } else {
                    lemma_prescan_no_dialect(
                        lines,
                        i + 1,
                        ScanState { dialect: None, ov: st.ov, tolerance: st.tolerance },
                    );
                }
            },
            _ => {},
        }
    }
}

/// A file none of whose lines carries a recognizable producer header is
/// never rewritten: processing fails, and unless an override comment is
/// itself malformed, it fails with the unknown-producer error.
pub proof fn lemma_unknown_producer(
    lines: Seq<Seq<char>>,
    ext: Map<FeatureType, AccelerationControl>,
    zhop: ZHopConfig,
)
    requires
        forall|j: int| 0 <= j < lines.len() ==> identify_dialect(trimmed(#[trigger] lines[j])) is None,
    ensures
        spec_process(lines, ext, zhop) is Err,
        prescan(lines, 0, initial_scan()) is Ok ==> spec_process(lines, ext, zhop) == Err::<
            Seq<Seq<char>>,
            PreprocessError,
        >(PreprocessError::UnknownSlicer),
{
    lemma_prescan_no_dialect(lines, 0, initial_scan());
}

/// Among embedded overrides, the first for a feature wins: once the
/// pre-scan holds a value for a feature, no later override line changes it.
pub proof fn lemma_first_override_wins(
    lines: Seq<Seq<char>>,
    i: int,
    st: ScanState,
    f: FeatureType,
)
    requires
        st.ov.contains_key(f),
    ensures
        prescan(lines, i, st) matches Ok(sc) ==> sc.ov.contains_key(f) && sc.ov[f] == st.ov[f],
    decreases lines.len() - i,
{
    if 0 <= i < lines.len() {
        let t = trimmed(lines[i]);
        let d = if st.dialect is Some {
            st.dialect
        } else {
            identify_dialect(t)
        };
        match scan_override(t) {
            OverrideScan::Found(g, c) => {
                let ov2 = if st.ov.contains_key(g) {
                    st.ov
                } else {
                    st.ov.insert(g, c)
                };
                assert(ov2.contains_key(f) && ov2[f] == st.ov[f]);
                lemma_first_override_wins(
                    lines,
                    i + 1,
                    ScanState { dialect: d, ov: ov2, tolerance: SCAN_TOLERANCE as nat },
                    f,
                );
            },
            OverrideScan::NotOverride => {
                if st.ov != Map::<FeatureType, AccelerationControl>::empty() {
                    if st.tolerance != 0 {
                        lemma_first_override_wins(
                            lines,
                            i + 1,
                            ScanState { dialect: d, ov: st.ov, tolerance: (st.tolerance - 1) as nat },
                            f,
                        );
                    }
                } else {
                    lemma_first_override_wins(
                        lines,
                        i + 1,
                        ScanState { dialect: d, ov: st.ov, tolerance: st.tolerance },
                        f,
                    );
                }
            },
            _ => {},
        }
    }
}

/// Embedded overrides take precedence over externally supplied settings: in
/// the merged mapping a run uses, every feature the pre-scan harvested
/// carries the harvested value, whatever the external settings said.
pub proof fn lemma_override_precedence(
    ext: Map<FeatureType, AccelerationControl>,
    ov: Map<FeatureType, AccelerationControl>,
    f: FeatureType,
)
    requires
        ov.contains_key(f),
    ensures
        ext.union_prefer_right(ov).contains_key(f),
        ext.union_prefer_right(ov)[f] == ov[f],
{
}

/// Run the pre-scan over the head of the file: the selected processor, if
/// any, and the harvested overrides.
pub fn scan_head(lines: &Vec<Vec<char>>) -> (r: Result<
    (Option<PreProcessorImpl>, AccelerationSettings),
    PreprocessError,
>)
    ensures
        ({
            match (r, prescan(views_of(lines@), 0, initial_scan())) {
                (Ok((p, ov)), Ok(sc)) => impl_dialect(p) == sc.dialect && ov.wf() && ov@ == sc.ov,
                (Err(a), Err(b)) => a == b,
                _ => false,
            }
        }),
{
    let ghost all = views_of(lines@);
    let mut processor: Option<PreProcessorImpl> = None;
    let mut overrides = AccelerationSettings::new();
    let mut found_any = false;
    let mut tolerance: u8 = SCAN_TOLERANCE;
    let n = lines.len();
    let mut i: usize = 0;
    while i < n
        invariant
            0 <= i <= n,
            n == lines@.len(),
            all == views_of(lines@),
            overrides.wf(),
            found_any <==> overrides@ != Map::<FeatureType, AccelerationControl>::empty(),
            tolerance <= SCAN_TOLERANCE,
            prescan(all, 0, initial_scan()) == prescan(
                all,
                i as int,
                ScanState {
                    dialect: impl_dialect(processor),
                    ov: overrides@,
                    tolerance: tolerance as nat,
                },
            ),
        ensures
            overrides.wf(),
            prescan(all, 0, initial_scan()) == Ok::<ScanState, PreprocessError>(
                ScanState {
                    dialect: impl_dialect(processor),
                    ov: overrides@,
                    tolerance: tolerance as nat,
                },
            ),
        decreases n - i,
    {
        let ghost st_entry = ScanState {
            dialect: impl_dialect(processor),
            ov: overrides@,
            tolerance: tolerance as nat,
        };
        let line = &lines[i];
        proof {
            assert(all[i as int] == line@);
        }
        if processor.is_none() {
            processor = identify_slicer_marker(line);
        }
        let ghost d_now = impl_dialect(processor);
        proof {
            assert(d_now == (if st_entry.dialect is Some {
                st_entry.dialect
            } else {
                identify_dialect(trimmed(line@))
            }));
        }
        let t = trim(line);
        match override_scan(&t) {
            OverrideScan::Found(f, c) => {
                overrides.insert_if_absent(f, c);
                found_any = true;
                tolerance = SCAN_TOLERANCE;
                proof {
                    assert(overrides@.contains_key(f));
                    assert(overrides@ != Map::<FeatureType, AccelerationControl>::empty());
                    assert(prescan(all, i as int, st_entry) == prescan(
                        all,
                        i as int + 1,
                        ScanState {
                            dialect: d_now,
                            ov: overrides@,
                            tolerance: SCAN_TOLERANCE as nat,
                        },
                    ));
                }
            },
            OverrideScan::BadValue => {
                proof {
                    assert(prescan(all, i as int, st_entry) == Err::<ScanState, PreprocessError>(
                        PreprocessError::InvalidNumber,
                    ));
                }
                return Err(PreprocessError::InvalidNumber);
            },
            OverrideScan::BadFeature => {
                proof {
                    assert(prescan(all, i as int, st_entry) == Err::<ScanState, PreprocessError>(
                        PreprocessError::InvalidFeatureType,
                    ));
                }
                return Err(PreprocessError::InvalidFeatureType);
            },
            OverrideScan::NotOverride => {
                if found_any {
                    if tolerance == 0 {
                        proof {
                            assert(prescan(all, i as int, st_entry) == Ok::<
                                ScanState,
                                PreprocessError,
                            >(ScanState { dialect: d_now, ov: overrides@, tolerance: 0 }));
                        }
                        break;
                    } else {
                        tolerance = tolerance - 1;
                        proof {
                            assert(prescan(all, i as int, st_entry) == prescan(
                                all,
                                i as int + 1,
                                ScanState {
                                    dialect: d_now,
                                    ov: overrides@,
                                    tolerance: tolerance as nat,
                                },
                            ));
                        }
                    }
                } else {
                    proof {
                        assert(overrides@ == Map::<FeatureType, AccelerationControl>::empty());
                        assert(prescan(all, i as int, st_entry) == prescan(
                            all,
                            i as int + 1,
                            ScanState {
                                dialect: d_now,
                                ov: overrides@,
                                tolerance: tolerance as nat,
                            },
                        ));
                    }
                }
            },
        }
        i = i + 1;
    }
    Ok((processor, overrides))
}

/// The externally supplied settings with the file's own overrides written
/// over them: the settings in effect for the rest of the run.
pub fn resolve_settings(
    lines: &Vec<Vec<char>>,
    settings: &Option<AccelerationSettings>,
) -> (r: Result<AccelerationSettings, PreprocessError>)
    requires
        settings matches Some(s) ==> s.wf(),
    ensures
        ({
            let ext = match *settings {
                Some(s) => s@,
                None => Map::<FeatureType, AccelerationControl>::empty(),
            };
            match (r, prescan(views_of(lines@), 0, initial_scan())) {
                (Ok(m), Ok(sc)) => m.wf() && m@ == ext.union_prefer_right(sc.ov),
                (Err(a), Err(b)) => a == b,
                _ => false,
            }
        }),
{
    let mut merged = match settings {
        Some(s) => s.duplicate(),
        None => AccelerationSettings::new(),
    };
    match scan_head(lines) {
        Err(e) => Err(e),
        Ok((_, overrides)) => {
            merged.apply_overrides(&overrides);
            Ok(merged)
        },
    }
}

/// Rewrite one file: detect the dialect and harvest overrides from the head
/// of the lines, merge them over the external settings, and stream every
/// line through the dialect's engine.  The chunks of the result are the
/// rewritten file in order.
pub fn process(
    lines: &Vec<Vec<char>>,
    settings: &Option<AccelerationSettings>,
    zhop: &ZHopConfig,
) -> (r: Result<Vec<Vec<char>>, PreprocessError>)
    requires
        settings matches Some(s) ==> s.wf(),
    ensures
        ({
            let ext = match *settings {
                Some(s) => s@,
                None => Map::<FeatureType, AccelerationControl>::empty(),
            };
            match (r, spec_process(views_of(lines@), ext, *zhop)) {
                (Ok(v), Ok(o)) => views_of(v@) == o,
                (Err(a), Err(b)) => a == b,
                _ => false,
            }
        }),
{
    let mut merged = match settings {
        Some(s) => s.duplicate(),
        None => AccelerationSettings::new(),
    };
    match scan_head(lines) {
        Err(e) => Err(e),
        Ok((found, overrides)) => match found {
            None => Err(PreprocessError::UnknownSlicer),
            Some(p) => {
                merged.apply_overrides(&overrides);
                Ok(p.process(lines, &merged, zhop))
            },
        },
    }
}

} // verus!
