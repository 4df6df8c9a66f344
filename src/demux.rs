//! Opening and reading a source: protocol-aware open options, timestamp
//! conversions, and the repacking of decoded pictures.
use vstd::prelude::*;
use vstd::arithmetic::mul::lemma_mul_inequality;
use crate::clock::clamp_i64;
use crate::media::MediaSource;
use crate::text::{contains, contains_spec, starts_with, starts_with_spec};
use crate::text::{str_to_chars};

verus! {

/// Opens sources away from the caller's thread.
pub struct DemuxerFactory;

/// Sources opened with network options: HTTP(S), RTSP and RTMP URLs and HLS
/// playlists.
pub open spec fn is_network_path_spec(p: Seq<char>) -> bool {
    starts_with_spec(p, "http://"@) || starts_with_spec(p, "https://"@) || starts_with_spec(
        p,
        "rtsp://"@,
    ) || starts_with_spec(p, "rtmp://"@) || contains_spec(p, ".m3u8"@)
}

pub fn is_network_path(p: &str) -> (r: bool)
    ensures
        r == is_network_path_spec(p@),
{
    let c = str_to_chars(p);
    starts_with(&c, &str_to_chars("http://")) || starts_with(&c, &str_to_chars("https://"))
        || starts_with(&c, &str_to_chars("rtsp://")) || starts_with(&c, &str_to_chars("rtmp://"))
        || contains(&c, &str_to_chars(".m3u8"))
}

/// Options for network sources: tolerate corrupt frames, generate missing
/// timestamps, probe for 5 s or 10 MB, time out after 15 s (8 s per read),
/// buffer 8 MB, reconnect.
pub open spec fn base_options() -> Seq<(Seq<char>, Seq<char>)> {
    seq![
        ("fflags"@, "+discardcorrupt+genpts+nobuffer+igndts"@),
        ("analyzeduration"@, "5000000"@),
        ("probesize"@, "10000000"@),
        ("timeout"@, "15000000"@),
        ("buffer_size"@, "8388608"@),
        ("max_delay"@, "500000"@),
        ("reorder_queue_size"@, "0"@),
        ("rw_timeout"@, "8000000"@),
        ("stimeout"@, "8000000"@),
        ("http_multiple"@, "1"@),
        ("reconnect"@, "1"@),
        ("reconnect_streamed"@, "1"@),
        ("reconnect_delay_max"@, "4"@),
    ]
}

/// Options added for HLS playlists: start at the live edge, retry reloads,
/// keep the HTTP connection.
pub open spec fn hls_options() -> Seq<(Seq<char>, Seq<char>)> {
    seq![
        ("live_start_index"@, "-1"@),
        ("max_reload"@, "10"@),
        ("http_persistent"@, "1"@),
        ("hls_init_time"@, "5"@),
    ]
}

/// Open options for a source path: none for a local file.
pub open spec fn open_options_spec(p: Seq<char>) -> Seq<(Seq<char>, Seq<char>)> {
    if !is_network_path_spec(p) {
        Seq::empty()
    } else if contains_spec(p, ".m3u8"@) {
        base_options() + hls_options()
    } else {
        base_options()
    }
}

pub open spec fn pair_views(v: Seq<(String, String)>) -> Seq<(Seq<char>, Seq<char>)> {
    v.map_values(|p: (String, String)| (p.0@, p.1@))
}

fn push_option(v: &mut Vec<(String, String)>, k: &str, val: &str)
    ensures
        pair_views(final(v)@) == pair_views(old(v)@).push((k@, val@)),
{
    let ghost before = v@;
    v.push((k.to_owned(), val.to_owned()));
    assert(pair_views(v@) == pair_views(before).push((k@, val@)));
}

impl DemuxerFactory {
    /// The options to open `path` with.
    pub fn open_options(path: &str) -> (r: Vec<(String, String)>)
        ensures
            pair_views(r@) == open_options_spec(path@),
    {
        let mut v: Vec<(String, String)> = Vec::new();
        if !is_network_path(path) {
            assert(pair_views(v@) == Seq::<(Seq<char>, Seq<char>)>::empty());
            return v;
        }
        push_option(&mut v, "fflags", "+discardcorrupt+genpts+nobuffer+igndts");
        push_option(&mut v, "analyzeduration", "5000000");
        push_option(&mut v, "probesize", "10000000");
        push_option(&mut v, "timeout", "15000000");
        push_option(&mut v, "buffer_size", "8388608");
        push_option(&mut v, "max_delay", "500000");
        push_option(&mut v, "reorder_queue_size", "0");
        push_option(&mut v, "rw_timeout", "8000000");
        push_option(&mut v, "stimeout", "8000000");
        push_option(&mut v, "http_multiple", "1");
        push_option(&mut v, "reconnect", "1");
        push_option(&mut v, "reconnect_streamed", "1");
        push_option(&mut v, "reconnect_delay_max", "4");
        assert(pair_views(v@) == base_options());
        if contains(&str_to_chars(path), &str_to_chars(".m3u8")) {
            push_option(&mut v, "live_start_index", "-1");
            push_option(&mut v, "max_reload", "10");
            push_option(&mut v, "http_persistent", "1");
            push_option(&mut v, "hls_init_time", "5");
            assert(pair_views(v@) == base_options() + hls_options());
        }
        v
    }

    /// The location a source is opened from.
    pub fn location(source: &MediaSource) -> (r: String)
        ensures
            r@ == match source {
                MediaSource::LocalFile(p) => p@,
                MediaSource::NetworkStream { url, .. } => url@,
            },
    {
        match source {
            MediaSource::LocalFile(p) => p.clone(),
            MediaSource::NetworkStream { url, .. } => url.clone(),
        }
    }
}

/// A position in milliseconds as the microseconds a container seek takes;
/// `None` when it does not fit.
pub fn seek_timestamp_us(ms: i64) -> (r: Option<i64>)
    ensures
        r == if i64::MIN <= ms * 1000 <= i64::MAX {
            Some((ms * 1000) as i64)
        } else {
            None::<i64>
        },
{
    let v: i128 = ms as i128 * 1000;
    if v < -9223372036854775808i128 || v > 9223372036854775807i128 {
        None
    } else {
        Some(v as i64)
    }
}

/// Integer division rounding toward zero, as a cast of the quotient does.
pub open spec fn div_toward_zero(a: int, d: int) -> int {
    if a >= 0 {
        a / d
    } else {
        -((-a) / d)
    }
}

/// A stream timestamp in units of `num/den` seconds, in milliseconds
/// (rounded toward zero, kept within `i64`).
pub open spec fn rebase_spec(ts: i64, num: i32, den: i32) -> i64 {
    clamp_i64(div_toward_zero(ts * num * 1000, den as int))
}

pub fn rebase_pts_ms(ts: i64, num: i32, den: i32) -> (r: i64)
    requires
        den > 0,
    ensures
        r == rebase_spec(ts, num, den),
{
    let t: i128 = ts as i128;
    let m: i128 = num as i128;
    assert(-0x4000_0000_0000_0000_0000_0000 <= t * m <= 0x4000_0000_0000_0000_0000_0000)
        by (nonlinear_arith)
        requires
            -0x8000_0000_0000_0000 <= t < 0x8000_0000_0000_0000,
            -0x8000_0000 <= m < 0x8000_0000,
    ;
    let a: i128 = t * m;
    let v: i128 = a * 1000;
    let q: i128 = if v >= 0 {
        v / (den as i128)
    } else {
        -((-v) / (den as i128))
    };
    if q < -9223372036854775808i128 {
        i64::MIN
    } else if q > 9223372036854775807i128 {
        i64::MAX
    } else {
        q as i64
    }
}

/// The rows of a picture laid end to end: `height` rows of `row` bytes,
/// row `y` starting at `y * stride` in the source.
pub open spec fn packed_rows(src: Seq<u8>, stride: int, row: int, height: int) -> Seq<u8>
    decreases height,
{
    if height <= 0 {
        Seq::empty()
    } else {
        packed_rows(src, stride, row, height - 1) + src.subrange(
            (height - 1) * stride,
            (height - 1) * stride + row,
        )
    }
}

/// Copies an RGBA picture into contiguous `4 * width * height` bytes,
/// leaving out the padding at the end of each source row.
pub fn pack_rgba_rows(src: &Vec<u8>, stride: usize, width: u32, height: u32) -> (r: Vec<u8>)
    requires
        stride >= 4 * width,
        height == 0 || (height - 1) * stride + 4 * width <= src@.len(),
    ensures
        r@ == packed_rows(src@, stride as int, 4 * width, height as int),
        r@.len() == 4 * width * height,
{
    let row: usize = 4 * (width as usize);
    let n = src.len();
    let mut out: Vec<u8> = Vec::new();
    let mut y: usize = 0;
    while y < height as usize
        invariant
            y <= height,
            row == 4 * width,
            n == src@.len(),
            stride >= row,
            height == 0 || (height - 1) * stride + row <= src@.len(),
            out@ == packed_rows(src@, stride as int, row as int, y as int),
            out@.len() == row * y,
        decreases height - y,
    {
        proof {
            lemma_mul_inequality(y as int, height - 1, stride as int);
        }
        let start = y * stride;
        let mut x: usize = 0;
        let ghost before = out@;
        while x < row
            invariant
                x <= row,
                n == src@.len(),
                start + row <= n,
                out@ == before + src@.subrange(start as int, start + x),
            decreases row - x,
        {
            out.push(src[start + x]);
            assert(src@.subrange(start as int, start + x + 1) == src@.subrange(
                start as int,
                start + x,
            ).push(src@[start + x]));
            x = x + 1;
        }
        assert(out@.len() == row * y + row);
        assert(row * y + row == row * (y + 1)) by (nonlinear_arith);
        y = y + 1;
    }
    assert(row * height == 4 * width * height) by (nonlinear_arith)
        requires
            row == 4 * width,
    ;
    out
}

} // verus!
