//! Trusted boundary to the JSON parser. The probe tool's report and the
//! enrichment service's movie list arrive as JSON text, and every field
//! drawn from them is a function of that text alone — so the parsed
//! content is given a name: a ghost report (or record list) of plain
//! values, pinned field by field by the wrappers' contracts. Verified
//! code then works from those plain fields; nothing else reads JSON.

use vstd::prelude::*;

verus! {

/// One stream of the probe report, as plain values: the fields the
/// launcher reads, absent where the report lacks or mistypes them.
#[verifier::ext_equal]
pub ghost struct ProbeStream {
    pub codec_type: Option<Seq<char>>,
    pub codec_name: Option<Seq<char>>,
    pub width: Option<u64>,
    pub height: Option<u64>,
}

/// The probe report's content, as plain values: the format section's
/// duration and size strings and the per-stream fields. Text that is not
/// a JSON object reads as the empty report.
#[verifier::ext_equal]
pub ghost struct ProbeReport {
    pub duration: Option<Seq<char>>,
    pub size: Option<Seq<char>>,
    pub streams: Seq<ProbeStream>,
}

/// One remote movie record, as plain values. `file_paths` keeps one slot
/// per array element, `None` for an element that is not a string; the
/// rating is the decimal spelling of a numeric rating (an integral rating
/// spells without a decimal point).
#[verifier::ext_equal]
pub ghost struct RemoteRecord {
    pub title: Option<Seq<char>>,
    pub year: Option<i64>,
    pub genre: Option<Seq<char>>,
    pub director: Option<Seq<char>>,
    pub plot: Option<Seq<char>>,
    pub runtime: Option<Seq<char>>,
    pub rating: Option<Seq<char>>,
    pub watch_count: Option<i64>,
    pub imdb_id: Option<Seq<char>>,
    pub file_key: Option<Seq<char>>,
    pub file_paths: Seq<Option<Seq<char>>>,
}

/// The view of an optional owned string.
pub open spec fn opt_view(o: Option<String>) -> Option<Seq<char>> {
    match o {
        Some(s) => Some(s@),
        None => None,
    }
}

/// What the probe tool's report text denotes.
pub uninterp spec fn probe_report_of(s: Seq<char>) -> ProbeReport;

/// What the enrichment service's movie-list text denotes: its records in
/// order; text that is not a JSON array denotes the empty list.
pub uninterp spec fn remote_records_of(s: Seq<char>) -> Seq<RemoteRecord>;

/// Relies on serde_json (`from_str`, `Value::get`, `Value::as_str`): the
/// report's `format.duration` string.
#[verifier::external_body]
pub(crate) fn probe_duration_field(s: &str) -> (r: Option<String>)
    ensures
        opt_view(r) == probe_report_of(s@).duration,
{
    serde_json::from_str::<serde_json::Value>(s).ok().and_then(
        |v| v.get("format")?.get("duration")?.as_str().map(str::to_owned),
    )
}

/// Relies on serde_json (`from_str`, `Value::get`, `Value::as_str`): the
/// report's `format.size` string.
#[verifier::external_body]
pub(crate) fn probe_size_field(s: &str) -> (r: Option<String>)
    ensures
        opt_view(r) == probe_report_of(s@).size,
{
    serde_json::from_str::<serde_json::Value>(s).ok().and_then(
        |v| v.get("format")?.get("size")?.as_str().map(str::to_owned),
    )
}

/// Relies on serde_json (`from_str`, `Value::get`, `Value::as_array`):
/// how many entries the report's `streams` array has.
#[verifier::external_body]
pub(crate) fn probe_stream_count(s: &str) -> (r: usize)
    ensures
        r as int == probe_report_of(s@).streams.len(),
{
    serde_json::from_str::<serde_json::Value>(s)
        .ok()
        .and_then(|v| Some(v.get("streams")?.as_array()?.len()))
        .unwrap_or(0)
}

/// Relies on serde_json (`from_str`, `Value::get`, `Value::as_array`,
/// `Value::as_str`): the `codec_type` of stream `i`.
#[verifier::external_body]
pub(crate) fn probe_stream_type(s: &str, i: usize) -> (r: Option<String>)
    ensures
        (i as int) < probe_report_of(s@).streams.len() ==> opt_view(r) == probe_report_of(
            s@,
        ).streams[i as int].codec_type,
{
    serde_json::from_str::<serde_json::Value>(s).ok().and_then(
        |v| v.get("streams")?.as_array()?.get(i)?.get("codec_type")?.as_str().map(str::to_owned),
    )
}

/// Relies on serde_json (`from_str`, `Value::get`, `Value::as_array`,
/// `Value::as_str`): the `codec_name` of stream `i`.
#[verifier::external_body]
pub(crate) fn probe_stream_codec(s: &str, i: usize) -> (r: Option<String>)
    ensures
        (i as int) < probe_report_of(s@).streams.len() ==> opt_view(r) == probe_report_of(
            s@,
        ).streams[i as int].codec_name,
{
    serde_json::from_str::<serde_json::Value>(s).ok().and_then(
        |v| v.get("streams")?.as_array()?.get(i)?.get("codec_name")?.as_str().map(str::to_owned),
    )
}

/// Relies on serde_json (`from_str`, `Value::get`, `Value::as_array`,
/// `Value::as_u64`): the `width` of stream `i`.
#[verifier::external_body]
pub(crate) fn probe_stream_width(s: &str, i: usize) -> (r: Option<u64>)
    ensures
        (i as int) < probe_report_of(s@).streams.len() ==> r == probe_report_of(
            s@,
        ).streams[i as int].width,
{
    serde_json::from_str::<serde_json::Value>(s).ok().and_then(
        |v| v.get("streams")?.as_array()?.get(i)?.get("width")?.as_u64(),
    )
}

/// Relies on serde_json (`from_str`, `Value::get`, `Value::as_array`,
/// `Value::as_u64`): the `height` of stream `i`.
#[verifier::external_body]
pub(crate) fn probe_stream_height(s: &str, i: usize) -> (r: Option<u64>)
    ensures
        (i as int) < probe_report_of(s@).streams.len() ==> r == probe_report_of(
            s@,
        ).streams[i as int].height,
{
    serde_json::from_str::<serde_json::Value>(s).ok().and_then(
        |v| v.get("streams")?.as_array()?.get(i)?.get("height")?.as_u64(),
    )
}

/// Relies on serde_json (`from_str`, `Value::as_array`): how many records
/// the movie-list text holds.
#[verifier::external_body]
pub(crate) fn remote_record_count(s: &str) -> (r: usize)
    ensures
        r as int == remote_records_of(s@).len(),
{
    serde_json::from_str::<serde_json::Value>(s)
        .ok()
        .and_then(|v| Some(v.as_array()?.len()))
        .unwrap_or(0)
}

/// Relies on serde_json (`from_str`, `Value::as_array`, `Value::get`,
/// `Value::as_str`): the `file_key` of record `k`.
#[verifier::external_body]
pub(crate) fn remote_file_key_field(s: &str, k: usize) -> (r: Option<String>)
    ensures
        (k as int) < remote_records_of(s@).len() ==> opt_view(r) == remote_records_of(
            s@,
        )[k as int].file_key,
{
    serde_json::from_str::<serde_json::Value>(s).ok().and_then(
        |v| v.as_array()?.get(k)?.get("file_key")?.as_str().map(str::to_owned),
    )
}

/// Relies on serde_json (`from_str`, `Value::as_array`, `Value::get`):
/// how many entries record `k`'s `file_paths` array has.
#[verifier::external_body]
pub(crate) fn remote_path_count(s: &str, k: usize) -> (r: usize)
    ensures
        (k as int) < remote_records_of(s@).len() ==> r as int == remote_records_of(
            s@,
        )[k as int].file_paths.len(),
{
    serde_json::from_str::<serde_json::Value>(s)
        .ok()
        .and_then(|v| Some(v.as_array()?.get(k)?.get("file_paths")?.as_array()?.len()))
        .unwrap_or(0)
}

/// Relies on serde_json (`from_str`, `Value::as_array`, `Value::get`,
/// `Value::as_str`): entry `j` of record `k`'s `file_paths`, where that
/// entry is a string.
#[verifier::external_body]
pub(crate) fn remote_path_field(s: &str, k: usize, j: usize) -> (r: Option<String>)
    ensures
        (k as int) < remote_records_of(s@).len() && (j as int) < remote_records_of(
            s@,
        )[k as int].file_paths.len() ==> opt_view(r) == remote_records_of(
            s@,
        )[k as int].file_paths[j as int],
{
    serde_json::from_str::<serde_json::Value>(s).ok().and_then(
        |v| v.as_array()?.get(k)?.get("file_paths")?.as_array()?.get(j)?.as_str().map(
            str::to_owned,
        ),
    )
}

/// Relies on serde_json (`from_str`, `Value::as_array`, `Value::get`,
/// `Value::as_str`): the `title` of record `k`.
#[verifier::external_body]
pub(crate) fn remote_title_field(s: &str, k: usize) -> (r: Option<String>)
    ensures
        (k as int) < remote_records_of(s@).len() ==> opt_view(r) == remote_records_of(
            s@,
        )[k as int].title,
{
    serde_json::from_str::<serde_json::Value>(s).ok().and_then(
        |v| v.as_array()?.get(k)?.get("title")?.as_str().map(str::to_owned),
    )
}

/// Relies on serde_json (`from_str`, `Value::as_array`, `Value::get`,
/// `Value::as_i64`): the `year` of record `k`.
#[verifier::external_body]
pub(crate) fn remote_year_field(s: &str, k: usize) -> (r: Option<i64>)
    ensures
        (k as int) < remote_records_of(s@).len() ==> r == remote_records_of(s@)[k as int].year,
{
    serde_json::from_str::<serde_json::Value>(s).ok().and_then(
        |v| v.as_array()?.get(k)?.get("year")?.as_i64(),
    )
}

/// Relies on serde_json (`from_str`, `Value::as_array`, `Value::get`,
/// `Value::as_str`): the `genre` of record `k`.
#[verifier::external_body]
pub(crate) fn remote_genre_field(s: &str, k: usize) -> (r: Option<String>)
    ensures
        (k as int) < remote_records_of(s@).len() ==> opt_view(r) == remote_records_of(
            s@,
        )[k as int].genre,
{
    serde_json::from_str::<serde_json::Value>(s).ok().and_then(
        |v| v.as_array()?.get(k)?.get("genre")?.as_str().map(str::to_owned),
    )
}

/// Relies on serde_json (`from_str`, `Value::as_array`, `Value::get`,
/// `Value::as_str`): the `director` of record `k`.
#[verifier::external_body]
pub(crate) fn remote_director_field(s: &str, k: usize) -> (r: Option<String>)
    ensures
        (k as int) < remote_records_of(s@).len() ==> opt_view(r) == remote_records_of(
            s@,
        )[k as int].director,
{
    serde_json::from_str::<serde_json::Value>(s).ok().and_then(
        |v| v.as_array()?.get(k)?.get("director")?.as_str().map(str::to_owned),
    )
}

/// Relies on serde_json (`from_str`, `Value::as_array`, `Value::get`,
/// `Value::as_str`): the `plot` of record `k`.
#[verifier::external_body]
pub(crate) fn remote_plot_field(s: &str, k: usize) -> (r: Option<String>)
    ensures
        (k as int) < remote_records_of(s@).len() ==> opt_view(r) == remote_records_of(
            s@,
        )[k as int].plot,
{
    serde_json::from_str::<serde_json::Value>(s).ok().and_then(
        |v| v.as_array()?.get(k)?.get("plot")?.as_str().map(str::to_owned),
    )
}

/// Relies on serde_json (`from_str`, `Value::as_array`, `Value::get`,
/// `Value::as_str`): the `runtime` of record `k`.
#[verifier::external_body]
pub(crate) fn remote_runtime_field(s: &str, k: usize) -> (r: Option<String>)
    ensures
        (k as int) < remote_records_of(s@).len() ==> opt_view(r) == remote_records_of(
            s@,
        )[k as int].runtime,
{
    serde_json::from_str::<serde_json::Value>(s).ok().and_then(
        |v| v.as_array()?.get(k)?.get("runtime")?.as_str().map(str::to_owned),
    )
}

/// Relies on serde_json (`from_str`, `Value::as_array`, `Value::get`,
/// `Value::is_number`, and `Value`'s `Display`): the decimal spelling of
/// record `k`'s numeric `rating`, `None` for a non-numeric rating.
#[verifier::external_body]
pub(crate) fn remote_rating_field(s: &str, k: usize) -> (r: Option<String>)
    ensures
        (k as int) < remote_records_of(s@).len() ==> opt_view(r) == remote_records_of(
            s@,
        )[k as int].rating,
{
    serde_json::from_str::<serde_json::Value>(s).ok().and_then(|v| {
        let rating = v.as_array()?.get(k)?.get("rating")?;
        if rating.is_number() {
            Some(rating.to_string())
        } else {
            None
        }
    })
}

/// Relies on serde_json (`from_str`, `Value::as_array`, `Value::get`,
/// `Value::as_i64`): the `watch_count` of record `k`.
#[verifier::external_body]
pub(crate) fn remote_watch_count_field(s: &str, k: usize) -> (r: Option<i64>)
    ensures
        (k as int) < remote_records_of(s@).len() ==> r == remote_records_of(
            s@,
        )[k as int].watch_count,
{
    serde_json::from_str::<serde_json::Value>(s).ok().and_then(
        |v| v.as_array()?.get(k)?.get("watch_count")?.as_i64(),
    )
}

/// Relies on serde_json (`from_str`, `Value::as_array`, `Value::get`,
/// `Value::as_str`): the `imdb_id` of record `k`.
#[verifier::external_body]
pub(crate) fn remote_imdb_field(s: &str, k: usize) -> (r: Option<String>)
    ensures
        (k as int) < remote_records_of(s@).len() ==> opt_view(r) == remote_records_of(
            s@,
        )[k as int].imdb_id,
{
    serde_json::from_str::<serde_json::Value>(s).ok().and_then(
        |v| v.as_array()?.get(k)?.get("imdb_id")?.as_str().map(str::to_owned),
    )
}

} // verus!
