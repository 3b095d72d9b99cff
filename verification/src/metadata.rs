//! Per-title metadata: the record shape, the merge precedence between the
//! remote enrichment service and the local probe tool, the lenient parsing
//! of the probe's JSON report, the remote lookup keyed by path candidates,
//! and the per-session cache.

use crate::catalog::str_eq;
use crate::fmt::{
    dec_str, format_duration, format_file_size, parse_duration_secs, parse_u64_digits,
    u64_to_string,
};
use crate::fmt::{duration_str, file_size_str, spec_parse_duration, spec_parse_u64};
use crate::json::{
    opt_view, probe_duration_field, probe_report_of, probe_size_field, probe_stream_codec,
    probe_stream_count, probe_stream_height, probe_stream_type, probe_stream_width,
    remote_director_field, remote_file_key_field, remote_genre_field, remote_imdb_field,
    remote_path_count, remote_path_field, remote_plot_field, remote_rating_field,
    remote_record_count, remote_records_of, remote_runtime_field, remote_title_field,
    remote_watch_count_field, remote_year_field, ProbeReport, ProbeStream, RemoteRecord,
};
use vstd::prelude::*;
use vstd::string::{StrSliceExecFns, StringExecFns};

verus! {

/// One title's descriptive and technical metadata; every field optional.
/// Descriptive fields come from the remote service when it knows the
/// title, technical fields only from the local probe.
pub struct MovieInfo {
    pub title: Option<String>,
    pub year: Option<i64>,
    pub genre: Option<String>,
    pub director: Option<String>,
    pub plot: Option<String>,
    pub runtime: Option<String>,
    pub rating: Option<String>,
    pub watch_count: Option<i64>,
    pub imdb_id: Option<String>,
    pub file_size: Option<String>,
    pub codec: Option<String>,
    pub resolution: Option<String>,
}

impl MovieInfo {
    /// A record with every field absent.
    pub fn empty() -> (r: MovieInfo)
        ensures
            r.title is None,
            r.year is None,
            r.genre is None,
            r.director is None,
            r.plot is None,
            r.runtime is None,
            r.rating is None,
            r.watch_count is None,
            r.imdb_id is None,
            r.file_size is None,
            r.codec is None,
            r.resolution is None,
    {
        MovieInfo {
            title: None,
            year: None,
            genre: None,
            director: None,
            plot: None,
            runtime: None,
            rating: None,
            watch_count: None,
            imdb_id: None,
            file_size: None,
            codec: None,
            resolution: None,
        }
    }
}

/// The merge of a remote record with a probe record: remote descriptive
/// fields always win where present, probe technical fields are additive
/// and never overwritten by remote data.
pub open spec fn merged_spec(remote: MovieInfo, probe: MovieInfo) -> MovieInfo {
    MovieInfo {
        title: if remote.title is Some {
            remote.title
        } else {
            probe.title
        },
        year: if remote.year is Some {
            remote.year
        } else {
            probe.year
        },
        genre: if remote.genre is Some {
            remote.genre
        } else {
            probe.genre
        },
        director: if remote.director is Some {
            remote.director
        } else {
            probe.director
        },
        plot: if remote.plot is Some {
            remote.plot
        } else {
            probe.plot
        },
        runtime: if remote.runtime is Some {
            remote.runtime
        } else {
            probe.runtime
        },
        rating: if remote.rating is Some {
            remote.rating
        } else {
            probe.rating
        },
        watch_count: if remote.watch_count is Some {
            remote.watch_count
        } else {
            probe.watch_count
        },
        imdb_id: if remote.imdb_id is Some {
            remote.imdb_id
        } else {
            probe.imdb_id
        },
        file_size: if probe.file_size is Some {
            probe.file_size
        } else {
            remote.file_size
        },
        codec: if probe.codec is Some {
            probe.codec
        } else {
            remote.codec
        },
        resolution: if probe.resolution is Some {
            probe.resolution
        } else {
            remote.resolution
        },
    }
}

/// Merges a remote record with a probe record under the fixed precedence.
pub fn merged(remote: MovieInfo, probe: MovieInfo) -> (r: MovieInfo)
    ensures
        r == merged_spec(remote, probe),
{
    MovieInfo {
        title: if remote.title.is_some() {
            remote.title
        } else {
            probe.title
        },
        year: if remote.year.is_some() {
            remote.year
        } else {
            probe.year
        },
        genre: if remote.genre.is_some() {
            remote.genre
        } else {
            probe.genre
        },
        director: if remote.director.is_some() {
            remote.director
        } else {
            probe.director
        },
        plot: if remote.plot.is_some() {
            remote.plot
        } else {
            probe.plot
        },
        runtime: if remote.runtime.is_some() {
            remote.runtime
        } else {
            probe.runtime
        },
        rating: if remote.rating.is_some() {
            remote.rating
        } else {
            probe.rating
        },
        watch_count: if remote.watch_count.is_some() {
            remote.watch_count
        } else {
            probe.watch_count
        },
        imdb_id: if remote.imdb_id.is_some() {
            remote.imdb_id
        } else {
            probe.imdb_id
        },
        file_size: if probe.file_size.is_some() {
            probe.file_size
        } else {
            remote.file_size
        },
        codec: if probe.codec.is_some() {
            probe.codec
        } else {
            remote.codec
        },
        resolution: if probe.resolution.is_some() {
            probe.resolution
        } else {
            remote.resolution
        },
    }
}

/// Renders pixel dimensions as `WIDTHxHEIGHT`.
pub fn resolution_str(width: u64, height: u64) -> (r: String)
    ensures
        r@ == dec_str(width as nat) + seq!['x'] + dec_str(height as nat),
{
    proof {
        reveal_strlit("x");
    }
    let mut s = u64_to_string(width);
    s.append("x");
    s.append(u64_to_string(height).as_str());
    proof {
        assert(s@ =~= dec_str(width as nat) + seq!['x'] + dec_str(height as nat));
    }
    s
}

/// What the runtime field of a probe-derived record shows: the report's
/// duration string parsed to whole seconds and formatted, absent when the
/// string is missing or malformed.
pub open spec fn probe_runtime_spec(rep: ProbeReport) -> Option<Seq<char>> {
    match rep.duration {
        Some(d) => match spec_parse_duration(d) {
            Some(secs) => Some(duration_str(secs as nat)),
            None => None,
        },
        None => None,
    }
}

/// What the file-size field shows: the report's size string parsed and
/// formatted with a binary-prefix unit, absent when missing or malformed.
pub open spec fn probe_file_size_spec(rep: ProbeReport) -> Option<Seq<char>> {
    match rep.size {
        Some(z) => match spec_parse_u64(z) {
            Some(b) => Some(file_size_str(b as nat)),
            None => None,
        },
        None => None,
    }
}

/// The `codec_type` label that marks a video stream.
pub open spec fn video_label() -> Seq<char> {
    seq!['v', 'i', 'd', 'e', 'o']
}

/// Index of the first video stream at or after `i`, `-1` if there is none.
pub open spec fn first_video_at(streams: Seq<ProbeStream>, i: int) -> int
    decreases streams.len() - i,
{
    if i < 0 || i >= streams.len() {
        -1
    } else if streams[i].codec_type == Some(video_label()) {
        i
    } else {
        first_video_at(streams, i + 1)
    }
}

/// Index of the report's first video stream, `-1` if there is none.
pub open spec fn first_video_stream(rep: ProbeReport) -> int {
    first_video_at(rep.streams, 0)
}

/// The codec a probe-derived record shows: the first video stream's codec
/// name.
pub open spec fn probe_codec_spec(rep: ProbeReport) -> Option<Seq<char>> {
    let k = first_video_stream(rep);
    if k < 0 {
        None
    } else {
        rep.streams[k].codec_name
    }
}

/// The resolution shown: `WIDTHxHEIGHT` of the first video stream, absent
/// unless that stream carries both dimensions.
pub open spec fn probe_resolution_spec(rep: ProbeReport) -> Option<Seq<char>> {
    let k = first_video_stream(rep);
    if k < 0 {
        None
    } else {
        match (rep.streams[k].width, rep.streams[k].height) {
            (Some(w), Some(h)) => Some(dec_str(w as nat) + seq!['x'] + dec_str(h as nat)),
            _ => None,
        }
    }
}

/// Finds the report's first video stream.
#[verifier::loop_isolation(false)]
fn find_first_video(json_text: &str) -> (r: Option<usize>)
    ensures
        match r {
            Some(k) => first_video_stream(probe_report_of(json_text@)) == k as int && (k as int)
                < probe_report_of(json_text@).streams.len(),
            None => first_video_stream(probe_report_of(json_text@)) == -1,
        },
{
    let ghost streams = probe_report_of(json_text@).streams;
    let n: usize = probe_stream_count(json_text);
    let mut k: usize = 0;
    while k < n
        invariant
            k <= n,
            first_video_at(streams, 0) == first_video_at(streams, k as int),
        decreases n - k,
    {
        let is_video_stream: bool = match probe_stream_type(json_text, k) {
            Some(ts) => {
                proof {
                    reveal_strlit("video");
                    assert("video"@ =~= video_label());
                }
                str_eq(ts.as_str(), "video")
            },
            None => false,
        };
        if is_video_stream {
            proof {
                assert(first_video_at(streams, k as int) == k as int);
            }
            return Some(k);
        }
        proof {
            assert(first_video_at(streams, k as int) == first_video_at(streams, k as int + 1));
        }
        k = k + 1;
    }
    None
}

/// Reads the probe tool's JSON report leniently, field by field: each of
/// runtime, file size, codec and resolution is exactly what the report's
/// corresponding fields denote, and a missing or malformed field leaves
/// just that field absent, never failing the rest. Descriptive fields
/// never come from a probe report.
pub fn parse_probe_output(json_text: &str) -> (r: MovieInfo)
    ensures
        r.title is None,
        r.year is None,
        r.genre is None,
        r.director is None,
        r.plot is None,
        r.rating is None,
        r.watch_count is None,
        r.imdb_id is None,
        opt_view(r.runtime) == probe_runtime_spec(probe_report_of(json_text@)),
        opt_view(r.file_size) == probe_file_size_spec(probe_report_of(json_text@)),
        opt_view(r.codec) == probe_codec_spec(probe_report_of(json_text@)),
        opt_view(r.resolution) == probe_resolution_spec(probe_report_of(json_text@)),
{
    let runtime: Option<String> = match probe_duration_field(json_text) {
        None => None,
        Some(d) => match parse_duration_secs(d.as_str()) {
            None => None,
            Some(secs) => Some(format_duration(secs)),
        },
    };
    let file_size: Option<String> = match probe_size_field(json_text) {
        None => None,
        Some(z) => match parse_u64_digits(z.as_str()) {
            None => None,
            Some(bytes) => Some(format_file_size(bytes)),
        },
    };
    let mut codec: Option<String> = None;
    let mut resolution: Option<String> = None;
    match find_first_video(json_text) {
        None => {},
        Some(k) => {
            codec = probe_stream_codec(json_text, k);
            match (probe_stream_width(json_text, k), probe_stream_height(json_text, k)) {
                (Some(w), Some(h)) => {
                    resolution = Some(resolution_str(w, h));
                },
                _ => {},
            }
        },
    }
    MovieInfo {
        title: None,
        year: None,
        genre: None,
        director: None,
        plot: None,
        runtime,
        rating: None,
        watch_count: None,
        imdb_id: None,
        file_size,
        codec,
        resolution,
    }
}

/// An indexed record never carries the probe's technical fields.
pub open spec fn remote_pairs_wf(pairs: Seq<(String, MovieInfo)>) -> bool {
    forall|i: int|
        0 <= i < pairs.len() ==> (#[trigger] pairs[i].1).file_size is None && pairs[i].1.codec
            is None && pairs[i].1.resolution is None
}

/// The exec record `m` carries exactly the remote record `rec`'s
/// descriptive fields, and no technical ones.
pub open spec fn info_matches_record(m: MovieInfo, rec: RemoteRecord) -> bool {
    &&& opt_view(m.title) == rec.title
    &&& m.year == rec.year
    &&& opt_view(m.genre) == rec.genre
    &&& opt_view(m.director) == rec.director
    &&& opt_view(m.plot) == rec.plot
    &&& opt_view(m.runtime) == rec.runtime
    &&& opt_view(m.rating) == rec.rating
    &&& m.watch_count == rec.watch_count
    &&& opt_view(m.imdb_id) == rec.imdb_id
    &&& m.file_size is None
    &&& m.codec is None
    &&& m.resolution is None
}

/// The pair a record's `file_key` contributes, if any.
pub open spec fn file_key_pairs(rec: RemoteRecord) -> Seq<(Seq<char>, RemoteRecord)> {
    match rec.file_key {
        Some(k) => seq![(k, rec)],
        None => Seq::empty(),
    }
}

/// The pairs the first `j` entries of a record's `file_paths` contribute:
/// one per string entry, in order.
pub open spec fn path_pairs_upto(rec: RemoteRecord, j: int) -> Seq<(Seq<char>, RemoteRecord)>
    decreases j,
{
    if j <= 0 {
        Seq::empty()
    } else {
        path_pairs_upto(rec, j - 1) + (match rec.file_paths[j - 1] {
            Some(p) => seq![(p, rec)],
            None => Seq::empty(),
        })
    }
}

/// All pairs one record contributes: its `file_key`, then each string
/// entry of `file_paths`.
pub open spec fn record_pairs(rec: RemoteRecord) -> Seq<(Seq<char>, RemoteRecord)> {
    file_key_pairs(rec) + path_pairs_upto(rec, rec.file_paths.len() as int)
}

pub open spec fn expected_pairs_upto(records: Seq<RemoteRecord>, k: int) -> Seq<
    (Seq<char>, RemoteRecord),
>
    decreases k,
{
    if k <= 0 {
        Seq::empty()
    } else {
        expected_pairs_upto(records, k - 1) + record_pairs(records[k - 1])
    }
}

/// The whole index a record list denotes: every record's pairs, in list
/// order.
pub open spec fn expected_remote_pairs(records: Seq<RemoteRecord>) -> Seq<
    (Seq<char>, RemoteRecord),
> {
    expected_pairs_upto(records, records.len() as int)
}

/// The built index corresponds pair for pair to the denoted one.
pub open spec fn pairs_match(
    ps: Seq<(String, MovieInfo)>,
    qs: Seq<(Seq<char>, RemoteRecord)>,
) -> bool {
    &&& ps.len() == qs.len()
    &&& forall|i: int|
        0 <= i < ps.len() ==> (#[trigger] ps[i]).0@ == qs[i].0 && info_matches_record(
            ps[i].1,
            qs[i].1,
        )
}

proof fn lemma_pairs_match_push(
    ps: Seq<(String, MovieInfo)>,
    qs: Seq<(Seq<char>, RemoteRecord)>,
    p: (String, MovieInfo),
    q: (Seq<char>, RemoteRecord),
)
    requires
        pairs_match(ps, qs),
        p.0@ == q.0,
        info_matches_record(p.1, q.1),
    ensures
        pairs_match(ps.push(p), qs + seq![q]),
{
    let ps2 = ps.push(p);
    let qs2 = qs + seq![q];
    assert forall|i: int|
        0 <= i < ps2.len() implies (#[trigger] ps2[i]).0@ == qs2[i].0 && info_matches_record(
        ps2[i].1,
        qs2[i].1,
    ) by {
        if i < ps.len() {
            assert(ps2[i] == ps[i]);
            assert(qs2[i] == qs[i]);
        } else {
            assert(ps2[i] == p);
            assert(qs2[i] == q);
        }
    }
}

/// Reads one remote record's descriptive fields. A remote record never
/// carries the probe's technical fields.
fn extract_remote_info(json_text: &str, k: usize) -> (r: MovieInfo)
    requires
        (k as int) < remote_records_of(json_text@).len(),
    ensures
        info_matches_record(r, remote_records_of(json_text@)[k as int]),
{
    MovieInfo {
        title: remote_title_field(json_text, k),
        year: remote_year_field(json_text, k),
        genre: remote_genre_field(json_text, k),
        director: remote_director_field(json_text, k),
        plot: remote_plot_field(json_text, k),
        runtime: remote_runtime_field(json_text, k),
        rating: remote_rating_field(json_text, k),
        watch_count: remote_watch_count_field(json_text, k),
        imdb_id: remote_imdb_field(json_text, k),
        file_size: None,
        codec: None,
        resolution: None,
    }
}

/// Builds the remote lookup from the service's movie-list JSON: exactly
/// each record, indexed under its `file_key` and then under each string
/// entry of its `file_paths`, in list order — so a later record takes
/// precedence on a repeated key, as repeated map insertion would.
#[verifier::loop_isolation(false)]
pub fn build_remote_index(json_text: &str) -> (r: Vec<(String, MovieInfo)>)
    ensures
        pairs_match(r@, expected_remote_pairs(remote_records_of(json_text@))),
        remote_pairs_wf(r@),
{
    let ghost records = remote_records_of(json_text@);
    let mut pairs: Vec<(String, MovieInfo)> = Vec::new();
    let n: usize = remote_record_count(json_text);
    let mut k: usize = 0;
    proof {
        assert(expected_pairs_upto(records, 0) =~= Seq::<(Seq<char>, RemoteRecord)>::empty());
    }
    while k < n
        invariant
            k <= n,
            pairs_match(pairs@, expected_pairs_upto(records, k as int)),
        decreases n - k,
    {
        let ghost rec = records[k as int];
        let ghost base = expected_pairs_upto(records, k as int);
        match remote_file_key_field(json_text, k) {
            None => {
                proof {
                    assert(base + file_key_pairs(rec) =~= base);
                }
            },
            Some(key) => {
                let info = extract_remote_info(json_text, k);
                let pair = (key, info);
                let ghost gp = pair;
                let ghost old_pairs = pairs@;
                pairs.push(pair);
                proof {
                    assert(rec.file_key == Some(gp.0@));
                    assert(file_key_pairs(rec) =~= seq![(gp.0@, rec)]);
                    lemma_pairs_match_push(old_pairs, base, gp, (gp.0@, rec));
                    assert(base + file_key_pairs(rec) =~= base + seq![(gp.0@, rec)]);
                }
            },
        }
        let m: usize = remote_path_count(json_text, k);
        let mut j: usize = 0;
        proof {
            assert(path_pairs_upto(rec, 0) =~= Seq::<(Seq<char>, RemoteRecord)>::empty());
            assert(base + file_key_pairs(rec) + path_pairs_upto(rec, 0) =~= base + file_key_pairs(
                rec,
            ));
        }
        while j < m
            invariant
                j <= m,
                pairs_match(pairs@, base + file_key_pairs(rec) + path_pairs_upto(rec, j as int)),
            decreases m - j,
        {
            let ghost before = base + file_key_pairs(rec) + path_pairs_upto(rec, j as int);
            match remote_path_field(json_text, k, j) {
                None => {
                    proof {
                        assert(rec.file_paths[j as int] is None);
                        assert(path_pairs_upto(rec, j as int + 1) =~= path_pairs_upto(
                            rec,
                            j as int,
                        ));
                        assert(base + file_key_pairs(rec) + path_pairs_upto(rec, j as int + 1)
                            =~= before);
                    }
                },
                Some(p) => {
                    let info = extract_remote_info(json_text, k);
                    let pair = (p, info);
                    let ghost gp = pair;
                    let ghost old_pairs = pairs@;
                    pairs.push(pair);
                    proof {
                        assert(rec.file_paths[j as int] == Some(gp.0@));
                        lemma_pairs_match_push(old_pairs, before, gp, (gp.0@, rec));
                        assert(path_pairs_upto(rec, j as int + 1) =~= path_pairs_upto(
                            rec,
                            j as int,
                        ) + seq![(gp.0@, rec)]);
                        assert(base + file_key_pairs(rec) + path_pairs_upto(rec, j as int + 1)
                            =~= before + seq![(gp.0@, rec)]);
                    }
                },
            }
            j = j + 1;
        }
        proof {
            assert(m as int == rec.file_paths.len());
            assert(expected_pairs_upto(records, k as int + 1) == expected_pairs_upto(
                records,
                k as int,
            ) + record_pairs(records[k as int]));
            assert(base + file_key_pairs(rec) + path_pairs_upto(rec, m as int)
                =~= expected_pairs_upto(records, k as int + 1));
        }
        k = k + 1;
    }
    proof {
        assert(expected_remote_pairs(records) == expected_pairs_upto(
            records,
            records.len() as int,
        ));
        assert forall|i: int|
            0 <= i < pairs@.len() implies (#[trigger] pairs@[i].1).file_size is None
            && pairs@[i].1.codec is None && pairs@[i].1.resolution is None by {
            assert(info_matches_record(pairs@[i].1, expected_remote_pairs(records)[i].1));
        }
    }
    pairs
}

/// The path-key variants tried against the remote index for a catalog
/// entry whose path is `rel`, in the order they are tried.
pub fn candidate_keys(rel: &str) -> (r: Vec<String>)
    ensures
        r@.len() == 3,
        r@[0]@ == "movies/"@ + rel@,
        r@[1]@ == rel@,
        r@[2]@ == "./movies/"@ + rel@,
{
    let mut first = String::from_str("movies/");
    first.append(rel);
    let mut third = String::from_str("./movies/");
    third.append(rel);
    let mut v: Vec<String> = Vec::new();
    v.push(first);
    v.push(rel.to_owned());
    v.push(third);
    v
}

/// Index of the pair a key resolves to: the last pair bearing the key,
/// `-1` when no pair does.
pub open spec fn last_match(pairs: Seq<(String, MovieInfo)>, key: Seq<char>) -> int
    decreases pairs.len(),
{
    if pairs.len() == 0 {
        -1
    } else if pairs.last().0@ == key {
        pairs.len() - 1
    } else {
        last_match(pairs.drop_last(), key)
    }
}

/// The record the candidate list resolves to: the first candidate present
/// in the index wins, and within the index the last pair for that key.
pub open spec fn lookup_spec(pairs: Seq<(String, MovieInfo)>, cands: Seq<String>) -> Option<
    MovieInfo,
>
    decreases cands.len(),
{
    if cands.len() == 0 {
        None
    } else if last_match(pairs, cands[0]@) >= 0 {
        Some(pairs[last_match(pairs, cands[0]@)].1)
    } else {
        lookup_spec(pairs, cands.drop_first())
    }
}

/// Finds the index position the key resolves to, scanning for the last
/// pair bearing the key.
#[verifier::loop_isolation(false)]
fn find_last_pair(pairs: &Vec<(String, MovieInfo)>, key: &str) -> (r: Option<usize>)
    ensures
        match r {
            Some(j) => last_match(pairs@, key@) == j as int && (j as int) < pairs@.len(),
            None => last_match(pairs@, key@) == -1,
        },
{
    let mut j: usize = pairs.len();
    proof {
        assert(pairs@.take(pairs@.len() as int) =~= pairs@);
    }
    while j > 0
        invariant
            j <= pairs@.len(),
            last_match(pairs@, key@) == last_match(pairs@.take(j as int), key@),
        decreases j,
    {
        j = j - 1;
        proof {
            assert(pairs@.take(j as int + 1).drop_last() =~= pairs@.take(j as int));
            assert(pairs@.take(j as int + 1).last() == pairs@[j as int]);
        }
        if str_eq(pairs[j].0.as_str(), key) {
            return Some(j);
        }
    }
    proof {
        assert(pairs@.take(0) =~= Seq::<(String, MovieInfo)>::empty());
    }
    None
}

/// Resolves a catalog entry against the remote index by trying each
/// candidate key in order.
#[verifier::loop_isolation(false)]
pub fn lookup_remote<'a>(pairs: &'a Vec<(String, MovieInfo)>, candidates: &Vec<String>) -> (r:
    Option<&'a MovieInfo>)
    ensures
        match r {
            Some(m) => lookup_spec(pairs@, candidates@) == Some(*m),
            None => lookup_spec(pairs@, candidates@) is None,
        },
{
    let mut ci: usize = 0;
    proof {
        assert(candidates@.skip(0) =~= candidates@);
    }
    while ci < candidates.len()
        invariant
            ci <= candidates@.len(),
            lookup_spec(pairs@, candidates@) == lookup_spec(pairs@, candidates@.skip(ci as int)),
        decreases candidates@.len() - ci,
    {
        let cand: &String = &candidates[ci];
        proof {
            assert(candidates@.skip(ci as int)[0] == candidates@[ci as int]);
        }
        match find_last_pair(pairs, cand.as_str()) {
            Some(j) => {
                return Some(&pairs[j].1);
            },
            None => {},
        }
        proof {
            assert(candidates@.skip(ci as int).drop_first() =~= candidates@.skip(ci as int + 1));
        }
        ci = ci + 1;
    }
    None
}

/// The per-session metadata cache: path to record, later insertions
/// overriding earlier ones, nothing evicted within a session.
pub struct MetadataCache {
    pairs: Vec<(String, MovieInfo)>,
}

/// The mapping a pair list denotes, later pairs overriding earlier ones.
pub open spec fn cache_map(pairs: Seq<(String, MovieInfo)>) -> Map<Seq<char>, MovieInfo>
    decreases pairs.len(),
{
    if pairs.len() == 0 {
        Map::empty()
    } else {
        cache_map(pairs.drop_last()).insert(pairs.last().0@, pairs.last().1)
    }
}

impl View for MetadataCache {
    type V = Map<Seq<char>, MovieInfo>;

    closed spec fn view(&self) -> Map<Seq<char>, MovieInfo> {
        cache_map(self.pairs@)
    }
}

proof fn lemma_cache_map_find(pairs: Seq<(String, MovieInfo)>, key: Seq<char>)
    ensures
        last_match(pairs, key) < pairs.len(),
        last_match(pairs, key) >= 0 ==> cache_map(pairs).contains_key(key) && cache_map(pairs)[key]
            == pairs[last_match(pairs, key)].1,
        last_match(pairs, key) < 0 ==> !cache_map(pairs).contains_key(key),
    decreases pairs.len(),
{
    if pairs.len() > 0 {
        lemma_cache_map_find(pairs.drop_last(), key);
        if pairs.last().0@ != key {
            let m = last_match(pairs.drop_last(), key);
            if m >= 0 {
                assert(pairs.drop_last()[m] == pairs[m]);
            }
        }
    }
}

impl MetadataCache {
    /// An empty cache.
    pub fn new() -> (r: MetadataCache)
        ensures
            r@ == Map::<Seq<char>, MovieInfo>::empty(),
    {
        let r = MetadataCache { pairs: Vec::new() };
        proof {
            assert(r@ =~= Map::<Seq<char>, MovieInfo>::empty());
        }
        r
    }

    /// The cached record for a path, if one was ever stored.
    pub fn get(&self, path: &str) -> (r: Option<&MovieInfo>)
        ensures
            match r {
                Some(m) => self@.contains_key(path@) && self@[path@] == *m,
                None => !self@.contains_key(path@),
            },
    {
        proof {
            lemma_cache_map_find(self.pairs@, path@);
        }
        match find_last_pair(&self.pairs, path) {
            Some(j) => Some(&self.pairs[j].1),
            None => None,
        }
    }

    /// Stores the record for a path, overriding any earlier record.
    pub fn put(&mut self, path: String, info: MovieInfo)
        ensures
            final(self)@ == old(self)@.insert(path@, info),
    {
        let ghost before = self.pairs@;
        let ghost key = path@;
        self.pairs.push((path, info));
        proof {
            assert(self.pairs@.drop_last() =~= before);
            assert(self.pairs@.last().0@ == key);
        }
    }
}

} // verus!
