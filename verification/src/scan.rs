//! Gallery scan orchestration.
//!
//! A scan runs in passes: a sequential classify pass in sorted-path order
//! (cache lookups, progress numbering, cancellation checkpoint per item),
//! a parallel generation pass over the cache misses, and one transactional
//! persist pass. Cancellation is observed before each classify step, before
//! each generation unit, and once more before persistence: a scan that
//! reports `cancelled` has persisted nothing.

use vstd::prelude::*;
use vstd::string::{StrSliceExecFns, StringExecFns};

use crate::cancel::CancelToken;
use crate::classify::{file_name_of, is_supported_image, spec_file_name, spec_is_supported};
use crate::encode::{data_url, spec_data_url};
use crate::errors::GalleryError;
use crate::keys::{cache_key_for_path, spec_cache_key};
use crate::store::{batch_upsert, upsert_row, CacheStore, StoredRow};
use crate::thumb::{generate_thumbnail_blob, matches_pending, par_generate};
use crate::types::{GalleryItem, GeneratedThumbnail, PendingThumbnail, ProgressEvent, SourceImage};
use crate::walker::lex_le;

verus! {

/// The name an item is reported under: the final path component, or a fixed
/// placeholder when the path has none.
pub open spec fn spec_display_name(p: Seq<char>) -> Seq<char> {
    if spec_file_name(p).len() == 0 {
        "image"@
    } else {
        spec_file_name(p)
    }
}

fn display_name(path: &str) -> (r: String)
    ensures
        r@ == spec_display_name(path@),
{
    let f = file_name_of(path);
    if f.unicode_len() == 0 {
        String::from_str("image")
    } else {
        f.to_owned()
    }
}

/// A cache entry is valid for an on-disk file iff the stored timestamp
/// equals the file's current one; any mismatch means regeneration.
pub open spec fn is_fresh(rows: Map<Seq<char>, StoredRow>, img: SourceImage) -> bool {
    &&& img.modified_unix is Some
    &&& rows.contains_key(spec_cache_key(img.path@))
    &&& rows[spec_cache_key(img.path@)].1 == img.modified_unix->0
}

/// The images of a scan that are not fresh in the store, in scan order.
pub open spec fn spec_misses(rows: Map<Seq<char>, StoredRow>, entries: Seq<SourceImage>) -> Seq<
    SourceImage,
>
    decreases entries.len(),
{
    if entries.len() == 0 {
        Seq::empty()
    } else {
        let rest = spec_misses(rows, entries.drop_last());
        if !is_fresh(rows, entries.last()) {
            rest.push(entries.last())
        } else {
            rest
        }
    }
}

/// The gallery items report exactly these images, in order.
pub open spec fn items_match(items: Seq<GalleryItem>, entries: Seq<SourceImage>) -> bool {
    &&& items.len() == entries.len()
    &&& forall|i: int|
        0 <= i < entries.len() ==> (#[trigger] items[i]).name@ == spec_display_name(
            entries[i].path@,
        ) && items[i].path@ == entries[i].path@
}

/// The work list holds exactly the misses among these images, in order,
/// each carrying its path's key and its current timestamp.
pub open spec fn pending_match(
    pending: Seq<PendingThumbnail>,
    rows: Map<Seq<char>, StoredRow>,
    entries: Seq<SourceImage>,
) -> bool {
    let misses = spec_misses(rows, entries);
    &&& pending.len() == misses.len()
    &&& forall|i: int|
        0 <= i < misses.len() ==> (#[trigger] pending[i]).image_path@ == misses[i].path@
            && pending[i].cache_key@ == spec_cache_key(misses[i].path@) && Some(
            pending[i].modified_unix,
        ) == misses[i].modified_unix
}

/// One progress event per classified image, numbered from 1, regardless of
/// hit or miss.
pub open spec fn progress_match(
    progress: Seq<ProgressEvent>,
    entries: Seq<SourceImage>,
    total: int,
) -> bool {
    &&& progress.len() == entries.len()
    &&& forall|i: int|
        0 <= i < entries.len() ==> (#[trigger] progress[i]).current == i + 1 && progress[i].total
            == total && progress[i].name@ == spec_display_name(entries[i].path@)
}

/// A work item is internally consistent and was a genuine miss.
pub open spec fn pending_sound(p: PendingThumbnail, rows: Map<Seq<char>, StoredRow>) -> bool {
    &&& p.cache_key@ == spec_cache_key(p.image_path@)
    &&& !(rows.contains_key(p.cache_key@) && rows[p.cache_key@].1 == p.modified_unix)
}

/// A work item stems from one of the scanned images, and that image was not
/// fresh in the store.
pub open spec fn pending_from_miss(
    p: PendingThumbnail,
    rows: Map<Seq<char>, StoredRow>,
    entries: Seq<SourceImage>,
) -> bool {
    exists|i: int|
        0 <= i < entries.len() && (#[trigger] entries[i]).path@ == p.image_path@
            && entries[i].modified_unix == Some(p.modified_unix) && !is_fresh(rows, entries[i])
}

/// The gallery item reporting exactly this image.
pub open spec fn item_for_entry(item: GalleryItem, e: SourceImage) -> bool {
    item.name@ == spec_display_name(e.path@) && item.path@ == e.path@
}

/// The items report a subsequence of these images, in order: every item
/// reports a scanned image, no item is invented, and the scan order is
/// kept.
pub open spec fn is_item_subsequence(items: Seq<GalleryItem>, entries: Seq<SourceImage>) -> bool
    decreases entries.len(),
{
    if items.len() == 0 {
        true
    } else if entries.len() == 0 {
        false
    } else {
        ||| (item_for_entry(items.last(), entries.last()) && is_item_subsequence(
            items.drop_last(),
            entries.drop_last(),
        ))
        ||| is_item_subsequence(items, entries.drop_last())
    }
}

/// A prefix's item subsequence is the whole sequence's as well.
proof fn lemma_item_subsequence_extends(
    items: Seq<GalleryItem>,
    entries: Seq<SourceImage>,
    k: int,
)
    requires
        0 <= k <= entries.len(),
        is_item_subsequence(items, entries.subrange(0, k)),
    ensures
        is_item_subsequence(items, entries),
    decreases entries.len() - k,
{
    if k == entries.len() {
        assert(entries.subrange(0, k) =~= entries);
    } else {
        assert(entries.subrange(0, k + 1).drop_last() =~= entries.subrange(0, k));
        lemma_item_subsequence_extends(items, entries, k + 1);
    }
}

/// Converse of `lemma_fresh_scan_has_no_misses`: a scan without misses had
/// every image fresh.
pub proof fn lemma_no_misses_means_all_fresh(
    rows: Map<Seq<char>, StoredRow>,
    entries: Seq<SourceImage>,
)
    requires
        spec_misses(rows, entries).len() == 0,
    ensures
        forall|i: int| 0 <= i < entries.len() ==> is_fresh(rows, #[trigger] entries[i]),
    decreases entries.len(),
{
    if entries.len() > 0 {
        lemma_no_misses_means_all_fresh(rows, entries.drop_last());
        assert forall|i: int| 0 <= i < entries.len() implies is_fresh(
            rows,
            #[trigger] entries[i],
        ) by {
            if i < entries.len() - 1 {
                assert(entries.drop_last()[i] == entries[i]);
            }
        }
    }
}

/// What the sequential classify pass hands back.
pub struct ClassifyOutput {
    pub items: Vec<GalleryItem>,
    pub pending: Vec<PendingThumbnail>,
    pub progress: Vec<ProgressEvent>,
    pub cancelled: bool,
    pub processed: usize,
    pub skipped: usize,
}

/// Sequential pass over the discovered images in order: per image, check
/// cancellation, emit a progress event, then query the cache — a hit yields
/// a ready item, a miss yields the item plus a work-list entry. An image
/// whose metadata was unreadable, or whose cache lookup failed, is skipped
/// and counted, never fatal.
pub fn classify_pass(store: &CacheStore, entries: &Vec<SourceImage>, cancel: &CancelToken) -> (r:
    ClassifyOutput)
    ensures
        r.processed <= entries@.len(),
        r.cancelled == (r.processed < entries@.len()),
        r.items@.len() + r.skipped == r.processed,
        progress_match(r.progress@, entries@.subrange(0, r.processed as int), entries@.len() as int),
        r.skipped == 0 ==> items_match(r.items@, entries@.subrange(0, r.processed as int)),
        r.skipped == 0 ==> pending_match(
            r.pending@,
            store.rows(),
            entries@.subrange(0, r.processed as int),
        ),
        is_item_subsequence(r.items@, entries@.subrange(0, r.processed as int)),
        forall|i: int|
            0 <= i < r.pending@.len() ==> pending_sound(#[trigger] r.pending@[i], store.rows()),
        forall|i: int|
            0 <= i < r.pending@.len() ==> pending_from_miss(
                #[trigger] r.pending@[i],
                store.rows(),
                entries@,
            ),
{
    let n = entries.len();
    let mut items: Vec<GalleryItem> = Vec::new();
    let mut pending: Vec<PendingThumbnail> = Vec::new();
    let mut progress: Vec<ProgressEvent> = Vec::new();
    let mut skipped: usize = 0;
    let mut cancelled = false;
    let mut i: usize = 0;
    proof {
        assert(entries@.subrange(0, 0) =~= Seq::<SourceImage>::empty());
    }
    loop
        invariant_except_break
            !cancelled,
        invariant
            n == entries@.len(),
            i <= n,
            items@.len() + skipped == i,
            progress_match(progress@, entries@.subrange(0, i as int), n as int),
            skipped == 0 ==> items_match(items@, entries@.subrange(0, i as int)),
            skipped == 0 ==> pending_match(pending@, store.rows(), entries@.subrange(0, i as int)),
            is_item_subsequence(items@, entries@.subrange(0, i as int)),
            forall|k: int|
                0 <= k < pending@.len() ==> pending_sound(#[trigger] pending@[k], store.rows()),
            forall|k: int|
                0 <= k < pending@.len() ==> pending_from_miss(
                    #[trigger] pending@[k],
                    store.rows(),
                    entries@,
                ),
        ensures
            i <= n,
            cancelled == (i < n),
            items@.len() + skipped == i,
            progress_match(progress@, entries@.subrange(0, i as int), n as int),
            skipped == 0 ==> items_match(items@, entries@.subrange(0, i as int)),
            skipped == 0 ==> pending_match(pending@, store.rows(), entries@.subrange(0, i as int)),
            is_item_subsequence(items@, entries@.subrange(0, i as int)),
            forall|k: int|
                0 <= k < pending@.len() ==> pending_sound(#[trigger] pending@[k], store.rows()),
            forall|k: int|
                0 <= k < pending@.len() ==> pending_from_miss(
                    #[trigger] pending@[k],
                    store.rows(),
                    entries@,
                ),
        decreases n - i,
    {
        if i == n {
            break;
        }
        if cancel.is_cancelled() {
            cancelled = true;
            break;
        }
        proof {
            let pre = entries@.subrange(0, i as int);
            let cur = entries@.subrange(0, i + 1);
            assert(cur.drop_last() =~= pre);
            assert(cur.last() == entries@[i as int]);
        }
        let entry = &entries[i];
        let ghost old_items = items@;
        let ghost old_pending = pending@;
        let name = display_name(entry.path.as_str());
        progress.push(ProgressEvent { current: i + 1, total: n, name: name.clone() });
        match entry.modified_unix {
            None => {
                skipped += 1;
            },
            Some(modified) => {
                let key = cache_key_for_path(entry.path.as_str());
                match store.lookup_fresh(key.as_str(), modified) {
                    Err(_) => {
                        skipped += 1;
                    },
                    Ok(hit) => {
                        items.push(GalleryItem { name, path: entry.path.clone() });
                        if hit.is_none() {
                            pending.push(
                                PendingThumbnail {
                                    image_path: entry.path.clone(),
                                    cache_key: key,
                                    modified_unix: modified,
                                },
                            );
                            proof {
                                assert(!is_fresh(store.rows(), entries@[i as int]));
                                assert(pending_from_miss(pending@.last(), store.rows(), entries@));
                                assert forall|k: int| 0 <= k < pending@.len() implies
                                    pending_from_miss(
                                        #[trigger] pending@[k],
                                        store.rows(),
                                        entries@,
                                    ) by {
                                    if k < pending@.len() - 1 {
                                        assert(pending@[k] == old_pending[k]);
                                    }
                                }
                            }
                        }
                    },
                }
            },
        }
        proof {
            let cur = entries@.subrange(0, i + 1);
            if items@.len() == old_items.len() {
                assert(items@ =~= old_items);
                assert(is_item_subsequence(items@, cur));
            } else {
                assert(items@.drop_last() =~= old_items);
                assert(item_for_entry(items@.last(), cur.last()));
                assert(is_item_subsequence(items@, cur));
            }
        }
        i += 1;
    }
    ClassifyOutput { items, pending, progress, cancelled, processed: i, skipped }
}

/// What one full scan reports: the items in classify order, whether a
/// cancel request stopped the scan early, the progress events of the
/// classify pass, and how many unreadable images were skipped.
pub struct ScanReport {
    pub items: Vec<GalleryItem>,
    pub cancelled: bool,
    pub progress: Vec<ProgressEvent>,
    pub skipped: usize,
}

/// A generated thumbnail stems from one of the scanned images: same source
/// path, same current timestamp.
pub open spec fn generated_from_entry(gt: GeneratedThumbnail, entries: Seq<SourceImage>) -> bool {
    exists|i: int|
        0 <= i < entries.len() && (#[trigger] entries[i]).path@ == gt.source_path@
            && entries[i].modified_unix == Some(gt.modified_unix)
}

/// Everything in a generation round is consistent: its key is derived from
/// its source path, its content type is PNG, it was not fresh in the store
/// the round started from, and it stems from one of the scanned images.
pub open spec fn generated_sound(
    g: Seq<GeneratedThumbnail>,
    rows: Map<Seq<char>, StoredRow>,
    entries: Seq<SourceImage>,
) -> bool {
    forall|k: int|
        0 <= k < g.len() ==> (#[trigger] g[k]).cache_key@ == spec_cache_key(g[k].source_path@)
            && g[k].mime@ == "image/png"@ && !(rows.contains_key(g[k].cache_key@)
            && rows[g[k].cache_key@].1 == g[k].modified_unix) && generated_from_entry(
            g[k],
            entries,
        )
}

/// Scans a folder's discovered images against the cache: classify pass,
/// parallel generation of the misses, then one all-or-nothing persist pass
/// — skipped entirely if cancellation was observed during generation, so a
/// cancelled scan never persists anything.
///
/// `entries` are the walker's images, already sorted, each with its current
/// modification time (`None` where the metadata could not be read).
pub fn scan_folder_core(
    store: &mut CacheStore,
    entries: &Vec<SourceImage>,
    thumbnail_size: u32,
    cancel: &CancelToken,
) -> (r: Result<ScanReport, GalleryError>)
    requires
        old(store).wf(),
    ensures
        final(store).wf(),
        r is Err ==> r->Err_0 == GalleryError::StoreUnavailable && final(store).rows() == old(
            store,
        ).rows(),
        spec_misses(old(store).rows(), entries@).len() == 0 ==> r is Ok && final(store).rows()
            == old(store).rows(),
        r is Ok ==> {
            let rep = r->Ok_0;
            &&& rep.items@.len() + rep.skipped <= entries@.len()
            &&& rep.cancelled ==> final(store).rows() == old(store).rows()
            &&& !rep.cancelled ==> rep.items@.len() + rep.skipped == entries@.len()
            &&& (rep.skipped == 0 && !rep.cancelled) ==> items_match(rep.items@, entries@)
            &&& is_item_subsequence(rep.items@, entries@)
            &&& progress_match(
                rep.progress@,
                entries@.subrange(0, (rep.items@.len() + rep.skipped) as int),
                entries@.len() as int,
            )
            &&& exists|g: Seq<GeneratedThumbnail>|
                final(store).rows() == batch_upsert(old(store).rows(), g) && generated_sound(
                    g,
                    old(store).rows(),
                    entries@,
                )
        },
{
    let classified = classify_pass(store, entries, cancel);
    let mut cancelled = classified.cancelled;
    let ghost pending_view = classified.pending@;
    let ghost rows0 = store.rows();
    proof {
        let g0 = Seq::<GeneratedThumbnail>::empty();
        assert(batch_upsert(rows0, g0) == rows0);
        assert(generated_sound(g0, rows0, entries@));
    }
    if !cancelled && classified.pending.len() > 0 {
        proof {
            // A non-empty work list certifies at least one miss, so a scan
            // of an all-fresh folder never reaches the fallible store
            // mutation below.
            if spec_misses(rows0, entries@).len() == 0 {
                lemma_no_misses_means_all_fresh(rows0, entries@);
                let p = pending_view[0];
                assert(pending_from_miss(p, rows0, entries@));
                let w = choose|i: int|
                    0 <= i < entries@.len() && (#[trigger] entries@[i]).path@ == p.image_path@
                        && entries@[i].modified_unix == Some(p.modified_unix) && !is_fresh(
                        rows0,
                        entries@[i],
                    );
                assert(is_fresh(rows0, entries@[w]));
                assert(false);
            }
        }
        let generated = par_generate(classified.pending, thumbnail_size, cancel);
        if cancel.is_cancelled() {
            // Cancellation observed during the generation round: report it
            // and persist nothing from this batch.
            cancelled = true;
        } else if generated.len() > 0 {
            proof {
                assert forall|k: int| 0 <= k < generated@.len() implies (#[trigger] generated@[k]).cache_key@
                    == spec_cache_key(generated@[k].source_path@) && generated@[k].mime@
                    == "image/png"@ && !(rows0.contains_key(generated@[k].cache_key@) && rows0[
                    generated@[k].cache_key@
                ].1 == generated@[k].modified_unix) && generated_from_entry(
                    generated@[k],
                    entries@,
                ) by {
                    let j = choose|j: int|
                        0 <= j < pending_view.len() && matches_pending(
                            generated@[k],
                            #[trigger] pending_view[j],
                        );
                    assert(pending_sound(pending_view[j], rows0));
                    assert(pending_from_miss(pending_view[j], rows0, entries@));
                    let w = choose|i: int|
                        0 <= i < entries@.len() && (#[trigger] entries@[i]).path@ == pending_view[
                            j
                        ].image_path@ && entries@[i].modified_unix == Some(
                            pending_view[j].modified_unix,
                        ) && !is_fresh(rows0, entries@[i]);
                    assert(entries@[w].path@ == generated@[k].source_path@);
                }
            }
            match store.upsert_batch(&generated) {
                Ok(()) => {},
                Err(e) => {
                    return Err(e);
                },
            }
        }
    }
    proof {
        assert(entries@.subrange(0, entries@.len() as int) =~= entries@);
        lemma_item_subsequence_extends(classified.items@, entries@, classified.processed as int);
    }
    Ok(
        ScanReport {
            items: classified.items,
            cancelled,
            progress: classified.progress,
            skipped: classified.skipped,
        },
    )
}

/// Serves one thumbnail through the same lookup/generate/upsert logic as a
/// scan item, independently of a full scan: a fresh cache entry is returned
/// as-is; otherwise the thumbnail is generated, upserted durably under the
/// path's key, and returned. The result is a `data:` URL of the stored
/// blob under the stored content type.
pub fn load_thumbnail_core(
    store: &mut CacheStore,
    path: &str,
    modified_unix: i64,
    thumbnail_size: u32,
) -> (r: Result<String, GalleryError>)
    requires
        old(store).wf(),
    ensures
        final(store).wf(),
        (r is Err && r->Err_0 == GalleryError::UnsupportedFormat) <==> !spec_is_supported(path@),
        r is Err ==> final(store).rows() == old(store).rows(),
        (r is Ok && old(store).rows().contains_key(spec_cache_key(path@)) && old(store).rows()[
            spec_cache_key(path@)
        ].1 == modified_unix) ==> final(store).rows() == old(store).rows() && r->Ok_0@
            == spec_data_url(
            old(store).rows()[spec_cache_key(path@)].3,
            old(store).rows()[spec_cache_key(path@)].2,
        ),
        r is Ok ==> {
            let key = spec_cache_key(path@);
            let rows = final(store).rows();
            &&& rows.contains_key(key)
            &&& rows[key].1 == modified_unix
            &&& r->Ok_0@ == spec_data_url(rows[key].3, rows[key].2)
            &&& (final(store).rows() == old(store).rows() || final(store).rows() == upsert_row(
                old(store).rows(),
                key,
                path@,
                modified_unix,
                rows[key].2,
                "image/png"@,
            ))
        },
{
    if !is_supported_image(path) {
        return Err(GalleryError::UnsupportedFormat);
    }
    let key = cache_key_for_path(path);
    let cached = match store.lookup_fresh(key.as_str(), modified_unix) {
        Ok(c) => c,
        Err(e) => {
            return Err(e);
        },
    };
    match cached {
        Some((blob, mime)) => Ok(data_url(mime.as_str(), &blob)),
        None => {
            let (blob, mime) = match generate_thumbnail_blob(path, thumbnail_size) {
                Ok(bm) => bm,
                Err(e) => {
                    return Err(e);
                },
            };
            let entry = GeneratedThumbnail {
                cache_key: key,
                source_path: path.to_owned(),
                modified_unix,
                blob,
                mime,
            };
            match store.upsert(&entry) {
                Ok(()) => {},
                Err(e) => {
                    return Err(e);
                },
            }
            Ok(data_url(entry.mime.as_str(), &entry.blob))
        },
    }
}

/// Law (idempotence, first half): when every discovered image is already
/// fresh in the store, a classify pass enqueues no generation work.
pub proof fn lemma_fresh_scan_has_no_misses(
    rows: Map<Seq<char>, StoredRow>,
    entries: Seq<SourceImage>,
)
    requires
        forall|i: int| 0 <= i < entries.len() ==> is_fresh(rows, #[trigger] entries[i]),
    ensures
        spec_misses(rows, entries).len() == 0,
    decreases entries.len(),
{
    if entries.len() > 0 {
        lemma_fresh_scan_has_no_misses(rows, entries.drop_last());
    }
}

proof fn lemma_batch_upsert_untouched_key(
    rows: Map<Seq<char>, StoredRow>,
    g: Seq<GeneratedThumbnail>,
    k: Seq<char>,
)
    requires
        forall|j: int| 0 <= j < g.len() ==> (#[trigger] g[j]).cache_key@ != k,
    ensures
        batch_upsert(rows, g).contains_key(k) == rows.contains_key(k),
        rows.contains_key(k) ==> batch_upsert(rows, g)[k] == rows[k],
    decreases g.len(),
{
    if g.len() > 0 {
        lemma_batch_upsert_untouched_key(rows, g.drop_last(), k);
    }
}

proof fn lemma_batch_upsert_touched_key(
    rows: Map<Seq<char>, StoredRow>,
    g: Seq<GeneratedThumbnail>,
    k: Seq<char>,
    m: i64,
)
    requires
        exists|j: int| 0 <= j < g.len() && (#[trigger] g[j]).cache_key@ == k,
        forall|j: int|
            0 <= j < g.len() && (#[trigger] g[j]).cache_key@ == k ==> g[j].modified_unix == m,
    ensures
        batch_upsert(rows, g).contains_key(k),
        batch_upsert(rows, g)[k].1 == m,
    decreases g.len(),
{
    if g.len() > 0 {
        if g.last().cache_key@ == k {
        } else {
            let j = choose|j: int| 0 <= j < g.len() && (#[trigger] g[j]).cache_key@ == k;
            assert(0 <= j < g.drop_last().len() && g.drop_last()[j].cache_key@ == k);
            lemma_batch_upsert_touched_key(rows, g.drop_last(), k, m);
        }
    }
}

/// Law (idempotence): after a fully successful scan — every image's
/// metadata was readable, and every miss was generated and persisted —
/// rescanning the unchanged folder finds every image fresh and enqueues no
/// generation work, so the thumbnail generator runs zero times.
///
/// The one family of inputs excluded: two scanned paths whose derived cache
/// keys collide while their timestamps disagree, where the shared row can
/// serve only one of them.
pub proof fn lemma_scan_idempotent(
    rows: Map<Seq<char>, StoredRow>,
    entries: Seq<SourceImage>,
    g: Seq<GeneratedThumbnail>,
)
    requires
        forall|i: int| 0 <= i < entries.len() ==> (#[trigger] entries[i]).modified_unix is Some,
        forall|i1: int, i2: int|
            0 <= i1 < entries.len() && 0 <= i2 < entries.len() && spec_cache_key(
                (#[trigger] entries[i1]).path@,
            ) == spec_cache_key((#[trigger] entries[i2]).path@) ==> entries[i1].modified_unix
                == entries[i2].modified_unix,
        forall|i: int|
            0 <= i < entries.len() && !is_fresh(rows, #[trigger] entries[i]) ==> exists|j: int|
                0 <= j < g.len() && (#[trigger] g[j]).cache_key@ == spec_cache_key(
                    entries[i].path@,
                ),
        forall|j: int|
            0 <= j < g.len() ==> exists|i: int|
                0 <= i < entries.len() && (#[trigger] g[j]).cache_key@ == spec_cache_key(
                    entries[i].path@,
                ) && Some(g[j].modified_unix) == entries[i].modified_unix,
    ensures
        forall|i: int|
            0 <= i < entries.len() ==> is_fresh(batch_upsert(rows, g), #[trigger] entries[i]),
        spec_misses(batch_upsert(rows, g), entries).len() == 0,
{
    assert forall|i: int| 0 <= i < entries.len() implies is_fresh(
        batch_upsert(rows, g),
        #[trigger] entries[i],
    ) by {
        let k = spec_cache_key(entries[i].path@);
        let m = entries[i].modified_unix->0;
        if exists|j: int| 0 <= j < g.len() && (#[trigger] g[j]).cache_key@ == k {
            assert forall|j: int| 0 <= j < g.len() && (#[trigger] g[j]).cache_key@ == k implies g[
                j
            ].modified_unix == m by {
                let i2 = choose|i2: int|
                    0 <= i2 < entries.len() && g[j].cache_key@ == spec_cache_key(
                        (#[trigger] entries[i2]).path@,
                    ) && Some(g[j].modified_unix) == entries[i2].modified_unix;
                assert(entries[i2].modified_unix == entries[i].modified_unix);
            }
            lemma_batch_upsert_touched_key(rows, g, k, m);
        } else {
            assert(is_fresh(rows, entries[i]));
            lemma_batch_upsert_untouched_key(rows, g, k);
        }
    }
    lemma_fresh_scan_has_no_misses(batch_upsert(rows, g), entries);
}

/// The scan input is in nondecreasing path order, as the walker hands it
/// over.
pub open spec fn sorted_entry_paths(entries: Seq<SourceImage>) -> bool {
    forall|i: int, j: int|
        0 <= i < j < entries.len() ==> lex_le(
            (#[trigger] entries[i]).path@,
            (#[trigger] entries[j]).path@,
        )
}

/// Law (ordering): the item list of a scan over sorted images is itself
/// sorted by path — ready items are appended during the sequential pass, so
/// the classify order survives the unordered parallel generation.
pub proof fn lemma_items_keep_sorted_order(items: Seq<GalleryItem>, entries: Seq<SourceImage>)
    requires
        items_match(items, entries),
        sorted_entry_paths(entries),
    ensures
        forall|i: int, j: int|
            0 <= i < j < items.len() ==> lex_le(
                (#[trigger] items[i]).path@,
                (#[trigger] items[j]).path@,
            ),
{
}

/// Law (invalidation): a stored entry whose timestamp no longer matches the
/// file's is never served — freshness demands exact timestamp equality.
pub proof fn lemma_stale_entry_is_miss(rows: Map<Seq<char>, StoredRow>, img: SourceImage)
    requires
        img.modified_unix is Some,
        rows.contains_key(spec_cache_key(img.path@)),
        rows[spec_cache_key(img.path@)].1 != img.modified_unix->0,
    ensures
        !is_fresh(rows, img),
{
}

} // verus!
