use vstd::prelude::*;
use vstd::string::*;
use crate::text::{trim_bounds, trim_end_char, trim_end_char_bound, trim_ws};
use crate::json::{JsonValue, JsonTree, tree_get, trees_of, lemma_trees_of};
use crate::printer::client_raw::opt_tree;
use crate::error::DetectionError;

verus! {

/// Big-endian value of two bytes.
pub open spec fn be16(hi: u8, lo: u8) -> int {
    hi as int * 256 + lo as int
}

/// Whether `marker` starts a baseline (SOF0) or progressive (SOF2) frame.
pub open spec fn is_sof_marker(marker: u8) -> bool {
    marker == 0xC0 || marker == 0xC2
}

/// The JPEG segment walk from byte offset `i`: the `(width, height)` of the
/// first SOF0/SOF2 segment with non-zero dimensions, or `None` when the walk
/// leaves the marker chain, meets end-of-image, or runs out of bytes.
pub open spec fn jpeg_dims_from(b: Seq<u8>, i: int) -> Option<(u32, u32)>
    decreases b.len() - i,
{
    if i < 0 || !(i + 3 < b.len()) || b[i] != 0xFF || b[i + 1] == 0xD9 {
        None
    } else {
        let marker = b[i + 1];
        let h = be16(b[i + 5], b[i + 6]);
        let w = be16(b[i + 7], b[i + 8]);
        if is_sof_marker(marker) && i + 8 < b.len() && w > 0 && h > 0 {
            Some((w as u32, h as u32))
        } else {
            let next = i + 2 + be16(b[i + 2], b[i + 3]);
            if next < b.len() {
                jpeg_dims_from(b, next)
            } else {
                None
            }
        }
    }
}

/// `(width, height)` of a JPEG image read from its frame header: `None`
/// unless the bytes start with the SOI marker `FF D8` and the segment chain
/// reaches a SOF0/SOF2 segment with non-zero dimensions.
pub open spec fn jpeg_dims(b: Seq<u8>) -> Option<(u32, u32)> {
    if b.len() < 4 || b[0] != 0xFF || b[1] != 0xD8 {
        None
    } else {
        jpeg_dims_from(b, 2)
    }
}

/// Scans JPEG bytes for an SOF marker (`FF C0` or `FF C2`) and reads
/// `(width, height)` from it.
pub fn read_jpeg_dims(jpeg: &[u8]) -> (r: Option<(u32, u32)>)
    ensures
        r == jpeg_dims(jpeg@),
{
    let len = jpeg.len();
    if len < 4 || jpeg[0] != 0xFF || jpeg[1] != 0xD8 {
        return None;
    }
    let mut i: usize = 2;
    while len - i > 3
        invariant
            len == jpeg@.len(),
            2 <= i < len,
            jpeg_dims(jpeg@) == jpeg_dims_from(jpeg@, i as int),
        decreases len - i,
    {
        if jpeg[i] != 0xFF {
            return None;
        }
        let marker = jpeg[i + 1];
        if marker == 0xD9 {
            return None;
        }
        if (marker == 0xC0 || marker == 0xC2) && len - i > 8 {
            let h: u32 = (jpeg[i + 5] as u32) * 256 + (jpeg[i + 6] as u32);
            let w: u32 = (jpeg[i + 7] as u32) * 256 + (jpeg[i + 8] as u32);
            if w > 0 && h > 0 {
                return Some((w, h));
            }
        }
        let seg_len: usize = (jpeg[i + 2] as usize) * 256 + (jpeg[i + 3] as usize);
        if seg_len + 2 >= len - i {
            return None;
        }
        i = i + 2 + seg_len;
    }
    None
}

/// `s` without a final `/p`.
pub open spec fn strip_p_suffix(s: Seq<char>) -> Seq<char> {
    if s.len() >= 2 && s[s.len() - 2] == '/' && s[s.len() - 1] == 'p' {
        s.take(s.len() - 2)
    } else {
        s
    }
}

/// The Obico base URL for a configured one: trimmed of white space, of
/// trailing slashes, of a final `/p`, and of the slashes then left at its end.
pub open spec fn normalized_base_url(raw: Seq<char>) -> Seq<char> {
    trim_end_char(strip_p_suffix(trim_end_char(trim_ws(raw), '/')), '/')
}

/// `trim_end_char` leaves no `c` at the end.
proof fn lemma_trim_end_char_last(s: Seq<char>, c: char)
    ensures
        trim_end_char(s, c).len() > 0 ==> trim_end_char(s, c).last() != c,
    decreases s.len(),
{
    if s.len() > 0 && s.last() == c {
        lemma_trim_end_char_last(s.drop_last(), c);
    }
}

/// A normalized base URL does not end with `/`, so appending `/p/` to it
/// gives the prediction endpoint with a single slash before `p`.
pub proof fn law_normalized_url_no_trailing_slash(raw: Seq<char>)
    ensures
        normalized_base_url(raw).len() > 0 ==> normalized_base_url(raw).last() != '/',
{
    lemma_trim_end_char_last(strip_p_suffix(trim_end_char(trim_ws(raw), '/')), '/');
}

/// Trim trailing /p variants so the base URL takes `/p/` after it.
pub fn normalize_base_url(raw: &str) -> (r: String)
    ensures
        r@ == normalized_base_url(raw@),
{
    let (start, end) = trim_bounds(raw);
    let end = trim_end_char_bound(raw, start, end, '/');
    let ghost t = raw@.subrange(start as int, end as int);
    let end = if end - start >= 2 && raw.get_char(end - 2) == '/' && raw.get_char(end - 1) == 'p' {
        assert(t.take(t.len() - 2) =~= raw@.subrange(start as int, end - 2));
        end - 2
    } else {
        end
    };
    assert(strip_p_suffix(t) == raw@.subrange(start as int, end as int));
    let end = trim_end_char_bound(raw, start, end, '/');
    raw.substring_char(start, end).to_owned()
}

/// Whether file `a` sorts before file `b` by modification time, earlier
/// listing first among equal times.
pub open spec fn older(mtimes: Seq<u128>, a: int, b: int) -> bool {
    mtimes[a] < mtimes[b] || (mtimes[a] == mtimes[b] && a < b)
}

/// Which snapshot files to delete so that at most `max_files` remain: the
/// oldest ones, oldest first. `mtimes` holds each file's modification time.
pub fn prune_selection(mtimes: &Vec<u128>, max_files: usize) -> (r: Vec<usize>)
    ensures
        r@.len() == if mtimes@.len() > max_files {
            mtimes@.len() - max_files
        } else {
            0
        },
        forall|i: int| 0 <= i < r@.len() ==> r@[i] < mtimes@.len(),
        forall|i: int, j: int|
            0 <= i < j < r@.len() ==> older(mtimes@, r@[i] as int, r@[j] as int),
        forall|i: int, x: int|
            0 <= i < r@.len() && 0 <= x < mtimes@.len() && !r@.contains(x as usize) ==> older(
                mtimes@,
                r@[i] as int,
                x,
            ),
{
    let n = mtimes.len();
    let mut r: Vec<usize> = Vec::new();
    if n <= max_files {
        return r;
    }
    let count = n - max_files;
    let mut chosen: Vec<bool> = Vec::new();
    let mut k: usize = 0;
    while k < n
        invariant
            n == mtimes@.len(),
            k <= n,
            chosen@.len() == k,
            forall|x: int| 0 <= x < k ==> !chosen@[x],
        decreases n - k,
    {
        chosen.push(false);
        k = k + 1;
    }
    while r.len() < count
        invariant
            n == mtimes@.len(),
            count <= n,
            r@.len() <= count,
            chosen@.len() == n,
            forall|x: int| 0 <= x < n ==> (chosen@[x] <==> r@.contains(x as usize)),
            forall|i: int| 0 <= i < r@.len() ==> r@[i] < n,
            forall|i: int, j: int|
                0 <= i < j < r@.len() ==> older(mtimes@, r@[i] as int, r@[j] as int),
            forall|i: int, x: int|
                0 <= i < r@.len() && 0 <= x < n && !chosen@[x] ==> older(
                    mtimes@,
                    r@[i] as int,
                    x,
                ),
        decreases count - r@.len(),
    {
        // the oldest file not chosen yet
        let mut best: usize = n;
        let mut x: usize = 0;
        while x < n
            invariant
                n == mtimes@.len(),
                chosen@.len() == n,
                x <= n,
                best == n || (best < x && !chosen@[best as int]),
                best == n ==> forall|y: int| 0 <= y < x ==> chosen@[y],
                best < n ==> forall|y: int|
                    0 <= y < x && !chosen@[y] && y != best ==> older(mtimes@, best as int, y),
            decreases n - x,
        {
            if !chosen[x] && (best == n || mtimes[x] < mtimes[best]) {
                best = x;
            }
            x = x + 1;
        }
        if best == n {
            // every file is chosen, yet fewer than `count` are: impossible
            proof {
                assert forall|y: int| 0 <= y < n implies #[trigger] r@.contains(y as usize) by {
                    assert(chosen@[y]);
                }
                lemma_all_chosen(r@, n as int);
            }
            return r;
        }
        let ghost old_r = r@;
        r.push(best);
        chosen.set(best, true);
        proof {
            assert forall|y: int| 0 <= y < n implies (chosen@[y] <==> r@.contains(y as usize)) by {
                if y == best {
                    assert(r@[r@.len() - 1] == best);
                } else {
                    if r@.contains(y as usize) {
                        let t = choose|t: int| 0 <= t < r@.len() && r@[t] == y as usize;
                        if t < old_r.len() {
                            assert(old_r[t] == y as usize);
                        }
                    }
                    if old_r.contains(y as usize) {
                        let t = choose|t: int| 0 <= t < old_r.len() && old_r[t] == y as usize;
                        assert(r@[t] == y as usize);
                    }
                }
            }
        }
    }
    r
}

/// A sequence that holds every index below `n` has at least `n` elements.
proof fn lemma_all_chosen(r: Seq<usize>, n: int)
    requires
        0 <= n <= usize::MAX,
        forall|y: int| 0 <= y < n ==> #[trigger] r.contains(y as usize),
        forall|i: int| 0 <= i < r.len() ==> r[i] < n,
    ensures
        r.len() >= n,
{
    let f = |y: int| choose|t: int| 0 <= t < r.len() && r[t] == y as usize;
    let idx = vstd::set_lib::set_int_range(0, r.len() as int);
    let targets = vstd::set_lib::set_int_range(0, n);
    let img = targets.map(f);
    vstd::set_lib::lemma_int_range(0, n);
    vstd::set_lib::lemma_int_range(0, r.len() as int);
    assert forall|a: int| targets.contains(a) implies 0 <= #[trigger] f(a) < r.len() && r[f(a)]
        == a as usize by {
        assert(r.contains(a as usize));
    }
    assert forall|a: int, b: int|
        targets.contains(a) && targets.contains(b) && #[trigger] f(a) == #[trigger] f(b) implies a
        == b by {
        assert(0 <= f(a) < r.len() && r[f(a)] == a as usize);
        assert(0 <= f(b) < r.len() && r[f(b)] == b as usize);
    }
    assert(vstd::relations::injective_on(f, targets));
    vstd::set_lib::lemma_map_size(targets, img, f);
    assert forall|t: int| img.contains(t) implies idx.contains(t) by {
        let a = choose|a: int| targets.contains(a) && f(a) == t;
    }
    vstd::set_lib::lemma_len_subset(img, idx);
}

/// Whether every detection was dropped by an exclusion zone: there are
/// zones, there are detections, and each detection lies in some zone
/// (`excluded[i]` says whether detection `i` does).
pub open spec fn all_excluded(zone_count: nat, excluded: Seq<bool>) -> bool {
    &&& zone_count > 0
    &&& excluded.len() > 0
    &&& forall|i: int| 0 <= i < excluded.len() ==> excluded[i]
}

/// Returns true when all detections were excluded by zone filtering.
pub fn all_detections_excluded(zone_count: usize, excluded: &Vec<bool>) -> (r: bool)
    ensures
        r == all_excluded(zone_count as nat, excluded@),
{
    if zone_count == 0 || excluded.len() == 0 {
        return false;
    }
    let n = excluded.len();
    let mut i: usize = 0;
    while i < n
        invariant
            n == excluded@.len(),
            i <= n,
            forall|j: int| 0 <= j < i ==> excluded@[j],
        decreases n - i,
    {
        if !excluded[i] {
            return false;
        }
        i = i + 1;
    }
    true
}

/// The detections that no exclusion zone holds, by index, in order.
pub fn kept_detections(excluded: &Vec<bool>) -> (r: Vec<usize>)
    ensures
        forall|i: int| 0 <= i < r@.len() ==> r@[i] < excluded@.len() && !excluded@[r@[i] as int],
        forall|i: int, j: int| 0 <= i < j < r@.len() ==> r@[i] < r@[j],
        forall|x: int| 0 <= x < excluded@.len() && !excluded@[x] ==> r@.contains(x as usize),
{
    let n = excluded.len();
    let mut r: Vec<usize> = Vec::new();
    let mut i: usize = 0;
    while i < n
        invariant
            n == excluded@.len(),
            i <= n,
            forall|k: int| 0 <= k < r@.len() ==> r@[k] < i && !excluded@[r@[k] as int],
            forall|a: int, b: int| 0 <= a < b < r@.len() ==> r@[a] < r@[b],
            forall|x: int| 0 <= x < i && !excluded@[x] ==> r@.contains(x as usize),
        decreases n - i,
    {
        if !excluded[i] {
            let ghost before = r@;
            r.push(i);
            proof {
                assert forall|x: int| 0 <= x < i + 1 && !excluded@[x] implies r@.contains(
                    x as usize,
                ) by {
                    if x < i {
                        let t = choose|t: int| 0 <= t < before.len() && before[t] == x as usize;
                        assert(r@[t] == x as usize);
                    } else {
                        assert(r@[r@.len() - 1] == x as usize);
                    }
                }
            }
        }
        i = i + 1;
    }
    r
}

/// Where the failure score of a frame comes from.
#[derive(Debug, Clone, Copy, PartialEq, Eq, Structural)]
pub enum ScoreSource {
    /// The highest confidence among the detections outside exclusion zones.
    MaxConfidence,
    /// Zero: every detection lay in an exclusion zone.
    AllExcluded,
    /// The score field the response itself carries (`fail`, else `score`), or zero.
    Reported,
}

/// Chooses where the score of a frame comes from, given which detections
/// the exclusion zones hold.
pub fn score_source(zone_count: usize, excluded: &Vec<bool>) -> (r: ScoreSource)
    ensures
        r == if exists|i: int| 0 <= i < excluded@.len() && !excluded@[i] {
            ScoreSource::MaxConfidence
        } else if all_excluded(zone_count as nat, excluded@) {
            ScoreSource::AllExcluded
        } else {
            ScoreSource::Reported
        },
{
    let kept = kept_detections(excluded);
    if kept.len() > 0 {
        assert(!excluded@[kept@[0] as int]);
        ScoreSource::MaxConfidence
    } else if all_detections_excluded(zone_count, excluded) {
        ScoreSource::AllExcluded
    } else {
        proof {
            assert forall|i: int| 0 <= i < excluded@.len() implies excluded@[i] by {
                if !excluded@[i] {
                    assert(kept@.contains(i as usize));
                }
            }
        }
        ScoreSource::Reported
    }
}

#[verifier::external_type_specification]
#[verifier::external_body]
pub struct ExHttpClient(reqwest::Client);

/// An HTTP client together with the request and connect timeouts, in
/// seconds, that it was built with.
pub struct HttpClient {
    client: reqwest::Client,
    timeout_secs: u64,
    connect_timeout_secs: u64,
}

impl HttpClient {
    /// The request timeout in seconds.
    pub closed spec fn timeout(&self) -> u64 {
        self.timeout_secs
    }

    /// The connect timeout in seconds.
    pub closed spec fn connect_timeout(&self) -> u64 {
        self.connect_timeout_secs
    }

    /// The client itself.
    pub closed spec fn inner(&self) -> reqwest::Client {
        self.client
    }
}

/// An HTTP client from `reqwest::Client::builder()` with the given request
/// and connect timeouts, kept with those timeouts. The builder's `build`
/// fails only on a configuration error, which timeouts alone do not cause;
/// the default client stands in for that case, which is not stated.
#[verifier::external_body]
fn build_http_client(timeout_secs: u64, connect_timeout_secs: u64) -> (r: HttpClient)
    ensures
        r.timeout() == timeout_secs,
        r.connect_timeout() == connect_timeout_secs,
{
    let client = reqwest::Client::builder().timeout(std::time::Duration::from_secs(timeout_secs)).connect_timeout(
        std::time::Duration::from_secs(connect_timeout_secs),
    ).build().unwrap_or_default();
    HttpClient { client, timeout_secs, connect_timeout_secs }
}

/// A client of the Obico ML API at a base URL.
pub struct ObicoClient {
    client: HttpClient,
    base_url: String,
}

impl ObicoClient {
    /// The base URL requests go to.
    pub closed spec fn base(&self) -> Seq<char> {
        self.base_url@
    }

    /// The HTTP client the requests go through.
    pub closed spec fn http(&self) -> reqwest::Client {
        self.client.inner()
    }

    /// The request timeout in seconds.
    pub closed spec fn timeout(&self) -> u64 {
        self.client.timeout()
    }

    /// The connect timeout in seconds.
    pub closed spec fn connect_timeout(&self) -> u64 {
        self.client.connect_timeout()
    }

    /// A client for the API at `base_url`, normalized; requests time out
    /// after 15 s, connecting after 5 s.
    pub fn new(base_url: &str) -> (r: Self)
        ensures
            r.base() == normalized_base_url(base_url@),
            r.timeout() == 15,
            r.connect_timeout() == 5,
    {
        let client = build_http_client(15, 5);
        ObicoClient { base_url: normalize_base_url(base_url), client }
    }

    /// The HTTP client requests go through.
    pub fn http_client(&self) -> (r: &reqwest::Client)
        ensures
            *r == self.http(),
    {
        &self.client.client
    }

    /// The prediction endpoint: the base URL followed by `/p/`.
    pub fn prediction_url(&self) -> (r: String)
        ensures
            r@ == self.base() + "/p/"@,
    {
        let mut r = self.base_url.clone();
        r.append("/p/");
        r
    }
}


/// Whether a JSON value is a number.
pub open spec fn is_number(t: JsonTree) -> bool {
    t is UInt || t is Int || t is Float
}

/// A JSON value when it is a number.
pub open spec fn num_tree(t: JsonTree) -> Option<JsonTree> {
    if is_number(t) {
        Some(t)
    } else {
        None
    }
}

/// The number at `key` of an object; `None` when it is missing or not a number.
pub open spec fn num_at(t: JsonTree, key: Seq<char>) -> Option<JsonTree> {
    match tree_get(t, key) {
        Some(v) => num_tree(v),
        None => None,
    }
}

/// The numbers of `s`, in order.
pub open spec fn numbers_of(s: Seq<JsonTree>) -> Seq<JsonTree>
    decreases s.len(),
{
    if s.len() == 0 {
        Seq::empty()
    } else if is_number(s.last()) {
        numbers_of(s.drop_last()).push(s.last())
    } else {
        numbers_of(s.drop_last())
    }
}

/// The fields of one detection as the Obico ML API reports it, numbers
/// still as JSON.
pub enum DetectionFields {
    /// `[label, confidence, [cx, cy, w, h]]`: a box by its centre and size
    /// in pixels.
    CenterBox { confidence: JsonValue, cx: JsonValue, cy: JsonValue, w: JsonValue, h: JsonValue },
    /// The first five numbers of an array: the corners, already normalized,
    /// and the confidence.
    Corners { x1: JsonValue, y1: JsonValue, x2: JsonValue, y2: JsonValue, confidence: JsonValue },
    /// An object with numeric `x1`, `y1`, `x2`, `y2`; the confidence is its
    /// `confidence`, or `score` when it has no `confidence` key, and `None`
    /// (counted as 0) when that value is not a number.
    Keyed {
        x1: JsonValue,
        y1: JsonValue,
        x2: JsonValue,
        y2: JsonValue,
        confidence: Option<JsonValue>,
    },
}

/// The fields of a detection as values.
pub enum FieldsView {
    CenterBox(JsonTree, JsonTree, JsonTree, JsonTree, JsonTree),
    Corners(JsonTree, JsonTree, JsonTree, JsonTree, JsonTree),
    Keyed(JsonTree, JsonTree, JsonTree, JsonTree, Option<JsonTree>),
}

impl DetectionFields {
    /// These fields as values.
    pub open spec fn view(self) -> FieldsView {
        match self {
            DetectionFields::CenterBox { confidence, cx, cy, w, h } => FieldsView::CenterBox(
                confidence.tree(),
                cx.tree(),
                cy.tree(),
                w.tree(),
                h.tree(),
            ),
            DetectionFields::Corners { x1, y1, x2, y2, confidence } => FieldsView::Corners(
                x1.tree(),
                y1.tree(),
                x2.tree(),
                y2.tree(),
                confidence.tree(),
            ),
            DetectionFields::Keyed { x1, y1, x2, y2, confidence } => FieldsView::Keyed(
                x1.tree(),
                y1.tree(),
                x2.tree(),
                y2.tree(),
                opt_tree(confidence),
            ),
        }
    }
}

/// The view of optional detection fields.
pub open spec fn fields_view(o: Option<DetectionFields>) -> Option<FieldsView> {
    match o {
        Some(f) => Some(f.view()),
        None => None,
    }
}

/// The confidence of a keyed detection: `confidence` when the key is
/// there, else `score`; `None` unless that value is a number.
pub open spec fn keyed_confidence(t: JsonTree) -> Option<JsonTree> {
    match tree_get(t, "confidence"@) {
        Some(c) => num_tree(c),
        None => num_at(t, "score"@),
    }
}

/// Whether `t` is an array of exactly four numbers.
pub open spec fn is_box4(t: JsonTree) -> bool {
    t matches JsonTree::Array(b) && b.len() == 4 && is_number(b[0]) && is_number(b[1])
        && is_number(b[2]) && is_number(b[3])
}

/// The fields of a detection entry: a three-element array with a numeric
/// confidence and a box of four numbers; else an array of at least five
/// elements with at least five numbers, the first five taken; or an object
/// with numeric corners. Anything else is no detection.
pub open spec fn detection_fields_of(t: JsonTree) -> Option<FieldsView> {
    match t {
        JsonTree::Array(a) => if a.len() == 3 && is_number(a[1]) && is_box4(a[2]) {
            let b = a[2]->Array_0;
            Some(FieldsView::CenterBox(a[1], b[0], b[1], b[2], b[3]))
        } else if a.len() >= 5 && numbers_of(a).len() >= 5 {
            let n = numbers_of(a);
            Some(FieldsView::Corners(n[0], n[1], n[2], n[3], n[4]))
        } else {
            None
        },
        JsonTree::Object(_) => match (
            num_at(t, "x1"@),
            num_at(t, "y1"@),
            num_at(t, "x2"@),
            num_at(t, "y2"@),
        ) {
            (Some(x1), Some(y1), Some(x2), Some(y2)) => Some(
                FieldsView::Keyed(x1, y1, x2, y2, keyed_confidence(t)),
            ),
            _ => None,
        },
        _ => None,
    }
}

/// A copy of a JSON number.
fn number_copy(v: &JsonValue) -> (r: Option<JsonValue>)
    ensures
        opt_tree(r) == num_tree(v.tree()),
{
    match v {
        JsonValue::UInt(n) => Some(JsonValue::UInt(*n)),
        JsonValue::Int(n) => Some(JsonValue::Int(*n)),
        JsonValue::Float(t) => Some(JsonValue::Float(t.clone())),
        _ => None,
    }
}

/// The number at `key` of an object.
fn number_at(v: &JsonValue, key: &str) -> (r: Option<JsonValue>)
    ensures
        opt_tree(r) == num_at(v.tree(), key@),
{
    match v.get(key) {
        Some(x) => number_copy(x),
        None => None,
    }
}

/// The centre box of a three-element detection array, when it has one.
fn center_box(items: &Vec<JsonValue>) -> (r: Option<DetectionFields>)
    requires
        items@.len() == 3,
    ensures
        ({
            let a = trees_of(items@);
            fields_view(r) == if is_number(a[1]) && is_box4(a[2]) {
                let b = a[2]->Array_0;
                Some(FieldsView::CenterBox(a[1], b[0], b[1], b[2], b[3]))
            } else {
                None
            }
        }),
{
    proof {
        lemma_trees_of(items@);
    }
    let conf = match number_copy(&items[1]) {
        Some(c) => c,
        None => return None,
    };
    match &items[2] {
        JsonValue::Array(b) => {
            proof {
                lemma_trees_of(b@);
            }
            if b.len() != 4 {
                return None;
            }
            match (number_copy(&b[0]), number_copy(&b[1]), number_copy(&b[2]), number_copy(&b[3])) {
                (Some(cx), Some(cy), Some(w), Some(h)) => Some(
                    DetectionFields::CenterBox { confidence: conf, cx, cy, w, h },
                ),
                _ => None,
            }
        },
        _ => None,
    }
}

/// The numbers of a detection array, in order.
fn numbers_in(items: &Vec<JsonValue>) -> (r: Vec<JsonValue>)
    ensures
        trees_of(r@) == numbers_of(trees_of(items@)),
{
    proof {
        lemma_trees_of(items@);
    }
    let n = items.len();
    let mut nums: Vec<JsonValue> = Vec::new();
    let mut i: usize = 0;
    assert(trees_of(items@).take(0) =~= Seq::<JsonTree>::empty());
    while i < n
        invariant
            n == items@.len(),
            i <= n,
            trees_of(items@).len() == n,
            forall|j: int| 0 <= j < n ==> #[trigger] trees_of(items@)[j] == items@[j].tree(),
            trees_of(nums@) == numbers_of(trees_of(items@).take(i as int)),
        decreases n - i,
    {
        let ghost before = nums@;
        proof {
            assert(trees_of(items@).take(i + 1).drop_last() =~= trees_of(items@).take(i as int));
            assert(trees_of(items@).take(i + 1).last() == items@[i as int].tree());
        }
        match number_copy(&items[i]) {
            Some(x) => {
                nums.push(x);
                assert(nums@.drop_last() =~= before);
            },
            None => {},
        }
        i = i + 1;
    }
    assert(trees_of(items@).take(n as int) =~= trees_of(items@));
    nums
}

/// Reads the fields of one detection entry of an Obico ML response.
pub fn detection_fields(det: &JsonValue) -> (r: Option<DetectionFields>)
    ensures
        fields_view(r) == detection_fields_of(det.tree()),
{
    match det {
        JsonValue::Array(items) => {
            proof {
                lemma_trees_of(items@);
            }
            let n = items.len();
            if n == 3 {
                return center_box(items);
            }
            if n < 5 {
                return None;
            }
            let nums = numbers_in(items);
            proof {
                lemma_trees_of(nums@);
            }
            if nums.len() < 5 {
                return None;
            }
            Some(
                DetectionFields::Corners {
                    x1: nums[0].deep_copy(),
                    y1: nums[1].deep_copy(),
                    x2: nums[2].deep_copy(),
                    y2: nums[3].deep_copy(),
                    confidence: nums[4].deep_copy(),
                },
            )
        },
        JsonValue::Object(_) => {
            match (number_at(det, "x1"), number_at(det, "y1"), number_at(det, "x2"), number_at(det, "y2")) {
                (Some(x1), Some(y1), Some(x2), Some(y2)) => {
                    let confidence = match det.get("confidence") {
                        Some(c) => number_copy(c),
                        None => number_at(det, "score"),
                    };
                    Some(DetectionFields::Keyed { x1, y1, x2, y2, confidence })
                },
                _ => None,
            }
        },
        _ => None,
    }
}

/// The detections of an Obico ML response, each entry read in order; none
/// when `detections` is missing or not an array.
pub open spec fn response_detections(t: JsonTree) -> Seq<Option<FieldsView>> {
    match tree_get(t, "detections"@) {
        Some(JsonTree::Array(a)) => a.map_values(|d: JsonTree| detection_fields_of(d)),
        _ => Seq::empty(),
    }
}

/// The score an Obico ML response reports: `fail` when the key is there,
/// else `score`; `None` unless that value is a number.
pub open spec fn reported_score(t: JsonTree) -> Option<JsonTree> {
    match tree_get(t, "fail"@) {
        Some(v) => num_tree(v),
        None => num_at(t, "score"@),
    }
}

/// The detection entries and the reported score of an Obico ML response.
pub fn obico_response_fields(resp: &JsonValue) -> (r: (Vec<Option<DetectionFields>>, Option<JsonValue>))
    ensures
        r.0@.map_values(|f: Option<DetectionFields>| fields_view(f)) == response_detections(resp.tree()),
        opt_tree(r.1) == reported_score(resp.tree()),
{
    let mut out: Vec<Option<DetectionFields>> = Vec::new();
    match resp.get("detections") {
        Some(JsonValue::Array(items)) => {
            proof {
                lemma_trees_of(items@);
            }
            let n = items.len();
            let mut i: usize = 0;
            while i < n
                invariant
                    n == items@.len(),
                    i <= n,
                    trees_of(items@).len() == n,
                    forall|j: int| 0 <= j < n ==> #[trigger] trees_of(items@)[j] == items@[j].tree(),
                    out@.len() == i,
                    forall|j: int|
                        0 <= j < i ==> #[trigger] fields_view(out@[j]) == detection_fields_of(
                            items@[j].tree(),
                        ),
                decreases n - i,
            {
                out.push(detection_fields(&items[i]));
                i = i + 1;
            }
            assert(out@.map_values(|f: Option<DetectionFields>| fields_view(f)) =~= trees_of(
                items@,
            ).map_values(|d: JsonTree| detection_fields_of(d)));
        },
        _ => {
            assert(out@.map_values(|f: Option<DetectionFields>| fields_view(f)) =~= Seq::<
                Option<FieldsView>,
            >::empty());
        },
    }
    let score = match resp.get("fail") {
        Some(v) => number_copy(v),
        None => number_at(resp, "score"),
    };
    (out, score)
}

/// The outcome of a prediction request from its HTTP status: success for a
/// 2xx status, otherwise an error naming the status as `status_text` shows it.
pub fn check_obico_status(status: u16, status_text: &str) -> (r: Result<(), DetectionError>)
    ensures
        match r {
            Ok(()) => 200 <= status <= 299,
            Err(DetectionError::ObicoFailed(msg)) => !(200 <= status <= 299) && msg@
                == "Obico returned "@ + status_text@,
        },
{
    if 200 <= status && status <= 299 {
        Ok(())
    } else {
        let mut msg = String::from_str("Obico returned ");
        msg.append(status_text);
        Err(DetectionError::ObicoFailed(msg))
    }
}

/// An object entry with numbers at `x1`, `y1`, `x2`, `y2` gives a keyed
/// detection whose every corner is the number at the key of its name; its
/// confidence is the number at `confidence`, or, only when that key is
/// absent, the number at `score`.
pub proof fn law_keyed_fields_by_name(t: JsonTree)
    requires
        t is Object,
        tree_get(t, "x1"@) matches Some(v) && is_number(v),
        tree_get(t, "y1"@) matches Some(v) && is_number(v),
        tree_get(t, "x2"@) matches Some(v) && is_number(v),
        tree_get(t, "y2"@) matches Some(v) && is_number(v),
    ensures
        detection_fields_of(t) matches Some(FieldsView::Keyed(x1, y1, x2, y2, conf)) && {
            &&& Some(x1) == tree_get(t, "x1"@)
            &&& Some(y1) == tree_get(t, "y1"@)
            &&& Some(x2) == tree_get(t, "x2"@)
            &&& Some(y2) == tree_get(t, "y2"@)
            &&& (tree_get(t, "confidence"@) matches Some(v) ==> conf == if is_number(v) {
                Some(v)
            } else {
                None
            })
            &&& (tree_get(t, "confidence"@) is None ==> conf == match tree_get(t, "score"@) {
                Some(v) => if is_number(v) {
                    Some(v)
                } else {
                    None
                },
                None => None,
            })
        },
{
}

/// An object entry missing a numeric corner is no detection.
pub proof fn law_keyed_needs_all_corners(t: JsonTree, key: Seq<char>)
    requires
        t is Object,
        key == "x1"@ || key == "y1"@ || key == "x2"@ || key == "y2"@,
        !(tree_get(t, key) matches Some(v) && is_number(v)),
    ensures
        detection_fields_of(t) is None,
{
}

/// A three-element entry `[label, confidence, [cx, cy, w, h]]` with
/// numbers there gives the centre box in that order.
pub proof fn law_center_box_positions(a: Seq<JsonTree>)
    requires
        a.len() == 3,
        is_number(a[1]),
        a[2] matches JsonTree::Array(b) && b.len() == 4 && is_number(b[0]) && is_number(b[1])
            && is_number(b[2]) && is_number(b[3]),
    ensures
        detection_fields_of(JsonTree::Array(a)) == Some(
            FieldsView::CenterBox(
                a[1],
                a[2]->Array_0[0],
                a[2]->Array_0[1],
                a[2]->Array_0[2],
                a[2]->Array_0[3],
            ),
        ),
{
}

/// An entry of at least five numbers gives its first five as corners and
/// confidence, in order.
pub proof fn law_corners_all_numbers(a: Seq<JsonTree>)
    requires
        a.len() >= 5,
        forall|i: int| 0 <= i < a.len() ==> is_number(#[trigger] a[i]),
    ensures
        detection_fields_of(JsonTree::Array(a)) == Some(
            FieldsView::Corners(a[0], a[1], a[2], a[3], a[4]),
        ),
{
    lemma_numbers_of_all(a);
}

/// The numbers of a sequence of numbers are the sequence itself.
proof fn lemma_numbers_of_all(a: Seq<JsonTree>)
    requires
        forall|i: int| 0 <= i < a.len() ==> is_number(#[trigger] a[i]),
    ensures
        numbers_of(a) == a,
    decreases a.len(),
{
    if a.len() > 0 {
        assert forall|i: int| 0 <= i < a.drop_last().len() implies is_number(
            #[trigger] a.drop_last()[i],
        ) by {
            assert(a.drop_last()[i] == a[i]);
        }
        lemma_numbers_of_all(a.drop_last());
        assert(is_number(a[a.len() - 1]));
        assert(a.drop_last().push(a.last()) =~= a);
    }
}

/// The score a response reports is its numeric `fail`; only when `fail`
/// is absent is it the numeric `score`.
pub proof fn law_reported_score_prefers_fail(t: JsonTree)
    ensures
        tree_get(t, "fail"@) matches Some(v) ==> reported_score(t) == if is_number(v) {
            Some(v)
        } else {
            None
        },
        tree_get(t, "fail"@) is None ==> reported_score(t) == match tree_get(t, "score"@) {
            Some(v) => if is_number(v) {
                Some(v)
            } else {
                None
            },
            None => None,
        },
{
}

} // verus!
