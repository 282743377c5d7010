use vstd::prelude::*;
use crate::models::{Paste, PasteConfig, PasteForm, PublicPaste, RawPaste};
use crate::normalize::{normalize_expires_in, normalize_language, normalize_max_views,
    normalize_title, normalize_token_length, spec_normalize_expires_in, spec_normalize_language,
    spec_normalize_max_views, spec_normalize_title, spec_normalize_token_length,
    seq_contains_i64};
use crate::store::{allowed_amount, find_token_idx, has_token, listing_sorted, public_entries,
    spec_enforce_bytes, spec_enforce_count, spec_paste_of, spec_read_update, spec_sweep,
    total_chars, PasteRecord, PasteStore, StoreError};
use crate::text::str_eq;
use crate::token::token_chars_ok;

verus! {

// The storage side of each request: every operation that touches the table
// first sweeps expired rows, then runs the eviction the operation calls
// for, then does its own work.  The surrounding layer supplies the current
// time and renders the outcome.

/// Sanity conditions on the configuration that every storage operation
/// relies on: spans are non-negative and the content bound fits the
/// machine's counting type.
pub open spec fn config_ok(c: PasteConfig) -> bool {
    &&& c.default_expires_secs >= 0
    &&& forall|i: int|
        0 <= i < c.expires_options_secs@.len() ==> #[trigger] c.expires_options_secs@[i] >= 0
    &&& c.max_content_length <= i64::MAX
}

/// The table after the sweep-then-evict prologue of an operation.
pub open spec fn after_prologue(
    s: Seq<PasteRecord>,
    max_pastes: i64,
    reserve: i64,
    now: i64,
) -> Seq<PasteRecord> {
    spec_enforce_count(spec_sweep(s, now), allowed_amount(max_pastes, reserve))
}

/// The numbers the landing page shows.
pub struct IndexStats {
    /// The high-water id: how many pastes have ever been created.
    pub total_pastes_ever: i64,
    /// How many records are discoverable right now.
    pub public_count: usize,
}

/// Why a paste was not created.
#[derive(Clone, Copy, Debug, PartialEq, Eq, Structural)]
pub enum CreateError {
    /// The content has more characters than one paste may hold.
    ContentTooLong,
    /// The content alone would overflow the whole table's content budget.
    ContentOverTotalBudget,
    /// The store refused the row.
    Store(StoreError),
}

/// What a successful creation hands back.
#[derive(Debug)]
pub struct CreatedPaste {
    /// The token under which the new paste is reachable.
    pub token: String,
    /// When the paste expires.
    pub expires_at: i64,
    /// The span the paste was given.
    pub expires_in: i64,
    /// The normalized language choice.
    pub language: String,
    /// The view bound, when the paste burns after reading.
    pub max_views: Option<i64>,
}

/// Prepare the landing page: sweep, enforce the row bound, and report the
/// high-water id and the public count.
pub fn index(store: &mut PasteStore, max_pastes: i64, now: i64) -> (r: IndexStats)
    requires
        old(store).wf(),
    ensures
        final(store).wf(),
        final(store)@ == after_prologue(old(store)@, max_pastes, 0, now),
        final(store).spec_next_id() == old(store).spec_next_id(),
        r.total_pastes_ever == old(store).spec_next_id() - 1,
        r.public_count == public_entries(final(store)@, now).len(),
{
    store.cleanup_expired(now);
    store.enforce_size_limit(max_pastes, 0);
    IndexStats {
        total_pastes_ever: store.high_water_id(),
        public_count: store.count_public_live(now),
    }
}

/// Create a paste: sweep, reserve a row, reject over-long content, make
/// room in the byte budget, normalize every choice, and insert under a
/// fresh random token.
pub fn create_paste(store: &mut PasteStore, config: &PasteConfig, now: i64, form: PasteForm) -> (r:
    Result<CreatedPaste, CreateError>)
    requires
        old(store).wf(),
        config_ok(*config),
    ensures
        final(store).wf(),
        ({
            let s2 = after_prologue(old(store)@, config.max_pastes, 1, now);
            let clen = form.content@.len();
            if clen > config.max_content_length {
                r == Err::<CreatedPaste, CreateError>(CreateError::ContentTooLong)
                    && final(store)@ == s2
            } else if clen > config.max_total_content_length {
                r == Err::<CreatedPaste, CreateError>(CreateError::ContentOverTotalBudget)
                    && final(store)@ == s2
            } else {
                let s3 = spec_enforce_bytes(
                    s2,
                    allowed_amount(config.max_total_content_length, clen as i64),
                );
                let title_n = spec_normalize_title(
                    match form.title {
                        Some(t) => Some(t@),
                        None => None,
                    },
                    form.content@,
                );
                let expires_in = spec_normalize_expires_in(form.expires_in, *config);
                let token_len = spec_normalize_token_length(form.token_length, *config);
                let lang = spec_normalize_language(
                    match form.language {
                        Some(l) => Some(l@),
                        None => None,
                    },
                );
                let mv = spec_normalize_max_views(
                    match form.max_views {
                        Some(m) => Some(m@),
                        None => None,
                    },
                );
                let wants_public = match form.is_public {
                    Some(f) => f@ == "on"@,
                    None => false,
                };
                let is_public = wants_public && mv is None;
                let xat = if now + expires_in <= i64::MAX {
                    now + expires_in
                } else {
                    i64::MAX as int
                };
                match r {
                    Ok(cp) => {
                        &&& cp.token@.len() == token_len
                        &&& token_chars_ok(cp.token@)
                        &&& !has_token(s3, cp.token@)
                        &&& cp.expires_at == xat
                        &&& cp.expires_in == expires_in
                        &&& cp.language@ == lang
                        &&& cp.max_views == mv
                        &&& final(store)@.len() == s3.len() + 1
                        &&& final(store)@.take(s3.len() as int) == s3
                        &&& ({
                            let rec = final(store)@.last();
                            &&& rec.id == old(store).spec_next_id()
                            &&& rec.token == cp.token
                            &&& rec.title@ == title_n
                            &&& rec.content == form.content
                            &&& rec.language@ == lang
                            &&& rec.created_at == now
                            &&& rec.expires_at == xat
                            &&& rec.original_duration == expires_in
                            &&& rec.views == 0
                            &&& rec.max_views == mv
                            &&& rec.is_public == is_public
                        })
                        &&& final(store).spec_next_id() == old(store).spec_next_id() + 1
                    },
                    Err(e) => {
                        &&& final(store)@ == s3
                        &&& final(store).spec_next_id() == old(store).spec_next_id()
                        &&& (e == CreateError::Store(StoreError::IdSpaceExhausted) <==> old(store).spec_next_id() == i64::MAX)
                        &&& (e is Store)
                        // with free id space, an insert failure is only
                        // possible when the evicted table already holds a
                        // token of the requested length
                        &&& (old(store).spec_next_id() < i64::MAX ==> exists|i: int|
                            0 <= i < s3.len() && (#[trigger] s3[i]).token@.len() == token_len)
                    },
                }
            }
        }),
{
    store.cleanup_expired(now);
    store.enforce_size_limit(config.max_pastes, 1);
    let content_length = form.content.as_str().unicode_len();
    if content_length > config.max_content_length {
        return Err(CreateError::ContentTooLong);
    }
    let content_length_i64 = content_length as i64;
    if content_length_i64 > config.max_total_content_length {
        return Err(CreateError::ContentOverTotalBudget);
    }
    store.enforce_total_content_length(config.max_total_content_length, content_length_i64);
    let expires_in = normalize_expires_in(form.expires_in, config);
    proof {
        let requested = match form.expires_in {
            Some(v) => v,
            None => config.default_expires_secs,
        };
        if seq_contains_i64(config.expires_options_secs@, requested) {
            let i = choose|i: int|
                0 <= i < config.expires_options_secs@.len() && config.expires_options_secs@[i]
                    == requested;
            assert(config.expires_options_secs@[i] >= 0);
        }
        assert(expires_in >= 0);
    }
    let token_length = normalize_token_length(form.token_length, config);
    let language = normalize_language(form.language);
    let max_views = normalize_max_views(form.max_views);
    let wants_public = match form.is_public {
        Some(f) => str_eq(f.as_str(), "on"),
        None => false,
    };
    let is_public = wants_public && max_views.is_none();
    let expires_wide: i128 = now as i128 + expires_in as i128;
    let expires_at: i64 = if expires_wide <= i64::MAX as i128 {
        expires_wide as i64
    } else {
        i64::MAX
    };
    let title = normalize_title(form.title, form.content.as_str());
    let language_copy = language.clone();
    let ghost pre_insert = store@;
    let token = match store.insert_paste(
        title,
        form.content,
        expires_at,
        expires_in,
        token_length,
        language,
        max_views,
        is_public,
        now,
    ) {
        Ok(t) => t,
        Err(e) => {
            proof {
                if old(store).spec_next_id() < i64::MAX {
                    let w = choose|i: int|
                        0 <= i < pre_insert.len() && (#[trigger] pre_insert[i]).token@.len()
                            == token_length;
                    assert(pre_insert[w].token@.len() == token_length);
                }
            }
            return Err(CreateError::Store(e));
        },
    };
    Ok(CreatedPaste { token, expires_at, expires_in, language: language_copy, max_views })
}

/// Serve a read of one paste: sweep, enforce the row bound, then apply the
/// burn-on-read bookkeeping and hand the row back.
pub fn view_paste(store: &mut PasteStore, max_pastes: i64, now: i64, token: &str) -> (r: Option<
    Paste,
>)
    requires
        old(store).wf(),
    ensures
        final(store).wf(),
        final(store).spec_next_id() == old(store).spec_next_id(),
        ({
            let s = after_prologue(old(store)@, max_pastes, 0, now);
            let k = find_token_idx(s, token@);
            if k >= 0 && s[k].expires_at > now {
                r == Some(spec_paste_of(s[k])) && final(store)@ == spec_read_update(s, k)
            } else {
                r is None && final(store)@ == s
            }
        }),
{
    store.cleanup_expired(now);
    store.enforce_size_limit(max_pastes, 0);
    store.read_paste(token, now)
}

/// Serve a raw read: the same bookkeeping as `view_paste`, returning the
/// content row only.
pub fn view_paste_raw(store: &mut PasteStore, max_pastes: i64, now: i64, token: &str) -> (r:
    Option<RawPaste>)
    requires
        old(store).wf(),
    ensures
        final(store).wf(),
        final(store).spec_next_id() == old(store).spec_next_id(),
        ({
            let s = after_prologue(old(store)@, max_pastes, 0, now);
            let k = find_token_idx(s, token@);
            if k >= 0 && s[k].expires_at > now {
                r == Some(RawPaste {
                    content: s[k].content,
                    views: s[k].views,
                    max_views: s[k].max_views,
                }) && final(store)@ == spec_read_update(s, k)
            } else {
                r is None && final(store)@ == s
            }
        }),
{
    store.cleanup_expired(now);
    store.enforce_size_limit(max_pastes, 0);
    store.read_paste_raw(token, now)
}

/// The discovery page: sweep, then the hundred newest discoverable pastes.
pub fn explore(store: &mut PasteStore, now: i64) -> (r: Vec<PublicPaste>)
    requires
        old(store).wf(),
    ensures
        final(store).wf(),
        final(store)@ == spec_sweep(old(store)@, now),
        final(store).spec_next_id() == old(store).spec_next_id(),
        exists|full: Seq<PublicPaste>|
            {
                &&& #[trigger] full.to_multiset() == public_entries(
                    final(store)@,
                    now,
                ).to_multiset()
                &&& listing_sorted(full)
                &&& r@ == full.subrange(
                    0,
                    if 100 <= full.len() {
                        100
                    } else {
                        full.len() as int
                    },
                )
            },
{
    store.cleanup_expired(now);
    let r = store.list_public(100, 0, now);
    proof {
        let full = choose|full: Seq<PublicPaste>|
            {
                &&& #[trigger] full.to_multiset() == public_entries(store@, now).to_multiset()
                &&& listing_sorted(full)
                &&& r@ == full.subrange(
                    if 0 <= full.len() {
                        0int
                    } else {
                        full.len() as int
                    },
                    if 0 + 100 <= full.len() {
                        100int
                    } else {
                        full.len() as int
                    },
                )
            };
        assert(r@ == full.subrange(
            0,
            if 100 <= full.len() {
                100
            } else {
                full.len() as int
            },
        ));
    }
    r
}

/// One discoverable paste by position in the ordered listing, and the
/// total count, for the discovery API.
pub fn api_explore(store: &mut PasteStore, now: i64, offset: usize) -> (r: (
    Option<PublicPaste>,
    usize,
))
    requires
        old(store).wf(),
    ensures
        final(store).wf(),
        final(store)@ == spec_sweep(old(store)@, now),
        final(store).spec_next_id() == old(store).spec_next_id(),
        r.1 == public_entries(final(store)@, now).len(),
        exists|full: Seq<PublicPaste>|
            {
                &&& #[trigger] full.to_multiset() == public_entries(
                    final(store)@,
                    now,
                ).to_multiset()
                &&& listing_sorted(full)
                &&& r.0 == if (offset as int) < full.len() {
                    Some(full[offset as int])
                } else {
                    None::<PublicPaste>
                }
            },
{
    store.cleanup_expired(now);
    let total = store.count_public_live(now);
    let mut page = store.list_public(1, offset, now);
    let ghost pg = page@;
    let item = page.pop();
    proof {
        let full = choose|full: Seq<PublicPaste>|
            {
                &&& #[trigger] full.to_multiset() == public_entries(store@, now).to_multiset()
                &&& listing_sorted(full)
                &&& pg == full.subrange(
                    if offset as int <= full.len() {
                        offset as int
                    } else {
                        full.len() as int
                    },
                    if offset as int + 1 <= full.len() {
                        offset as int + 1
                    } else {
                        full.len() as int
                    },
                )
            };
        if (offset as int) < full.len() {
            assert(pg =~= seq![full[offset as int]]);
            assert(item == Some(full[offset as int]));
        } else {
            assert(pg =~= Seq::<PublicPaste>::empty());
            assert(item is None);
        }
    }
    (item, total)
}

} // verus!
