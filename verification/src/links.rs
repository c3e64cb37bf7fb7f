//! Download links: which kind of link a finished torrent gets, the S3
//! bucket settings that a link needs, the object key of a file, and the
//! token, address and expiry of a local-server link.
use vstd::prelude::*;
use crate::config::Settings;
use crate::server::{local_download_url, local_link};
use crate::text::{chars_of, owned, push_str_chars, string_of};
use rand::Rng;

verus! {

// ---------------------------------------------------------------------------
// The bucket
// ---------------------------------------------------------------------------

/// What a bucket is opened with.  A bucket at a custom endpoint uses
/// path-style addressing; without an endpoint the region is a named one.
pub struct BucketConfig {
    pub access_key: String,
    pub secret_key: String,
    pub bucket: String,
    pub region: String,
    pub endpoint: Option<String>,
}

/// The bucket settings as plain values: access key, secret key, bucket,
/// region and endpoint.
pub type BucketSpec = (Seq<char>, Seq<char>, Seq<char>, Seq<char>, Option<Seq<char>>);

/// The bucket settings as plain values.
pub open spec fn bucket_view(b: BucketConfig) -> BucketSpec {
    (b.access_key@, b.secret_key@, b.bucket@, b.region@, b.endpoint.deep_view())
}

/// The bucket settings, or why there are none: S3 must be on and have an
/// access key, a secret key and a bucket, checked in that order; the region
/// defaults to `us-east-1`; the endpoint is the public URL (else the
/// endpoint) for links handed out, the endpoint for uploads.
pub open spec fn bucket_config_of(
    enabled: bool,
    access_key: Option<Seq<char>>,
    secret_key: Option<Seq<char>>,
    bucket: Option<Seq<char>>,
    region: Option<Seq<char>>,
    endpoint: Option<Seq<char>>,
    public_url: Option<Seq<char>>,
    use_public: bool,
) -> Result<BucketSpec, Seq<char>> {
    if !enabled {
        Err("S3 is not enabled."@)
    } else if access_key is None {
        Err("S3 access key is missing."@)
    } else if secret_key is None {
        Err("S3 secret key is missing."@)
    } else if bucket is None {
        Err("S3 bucket name is missing."@)
    } else {
        Ok((
            access_key.unwrap(),
            secret_key.unwrap(),
            bucket.unwrap(),
            match region {
                Some(r) => r,
                None => "us-east-1"@,
            },
            if use_public {
                match public_url {
                    Some(p) => Some(p),
                    None => endpoint,
                }
            } else {
                endpoint
            },
        ))
    }
}

/// A copy of an optional string.
fn copy_opt(s: &Option<String>) -> (r: Option<String>)
    ensures
        r.deep_view() == s.deep_view(),
{
    crate::config::copy_opt_string(s)
}

/// The bucket settings for links handed out (`use_public`) or for uploads.
pub fn bucket_config(settings: &Settings, use_public: bool) -> (r: Result<BucketConfig, String>)
    ensures
        match r {
            Ok(b) => bucket_config_of(
                settings.s3.enabled,
                settings.s3.access_key.deep_view(),
                settings.s3.secret_key.deep_view(),
                settings.s3.bucket.deep_view(),
                settings.s3.region.deep_view(),
                settings.s3.endpoint.deep_view(),
                settings.s3.public_url.deep_view(),
                use_public,
            ) == Ok::<BucketSpec, Seq<char>>(bucket_view(b)),
            Err(e) => bucket_config_of(
                settings.s3.enabled,
                settings.s3.access_key.deep_view(),
                settings.s3.secret_key.deep_view(),
                settings.s3.bucket.deep_view(),
                settings.s3.region.deep_view(),
                settings.s3.endpoint.deep_view(),
                settings.s3.public_url.deep_view(),
                use_public,
            ) == Err::<BucketSpec, Seq<char>>(e@),
        },
{
    let s3 = &settings.s3;
    if !s3.enabled {
        return Err(owned("S3 is not enabled."));
    }
    let access_key = match &s3.access_key {
        Some(k) => k.clone(),
        None => {
            return Err(owned("S3 access key is missing."));
        },
    };
    let secret_key = match &s3.secret_key {
        Some(k) => k.clone(),
        None => {
            return Err(owned("S3 secret key is missing."));
        },
    };
    let bucket = match &s3.bucket {
        Some(b) => b.clone(),
        None => {
            return Err(owned("S3 bucket name is missing."));
        },
    };
    let region = match &s3.region {
        Some(r) => r.clone(),
        None => owned("us-east-1"),
    };
    let endpoint = if use_public {
        match &s3.public_url {
            Some(p) => Some(p.clone()),
            None => copy_opt(&s3.endpoint),
        }
    } else {
        copy_opt(&s3.endpoint)
    };
    Ok(BucketConfig { access_key, secret_key, bucket, region, endpoint })
}

// ---------------------------------------------------------------------------
// Keys
// ---------------------------------------------------------------------------

/// The object key of a file: its relative path, under `prefix/` where a
/// prefix is given.
pub open spec fn s3_key_of(prefix: Seq<char>, relative: Seq<char>) -> Seq<char> {
    if prefix.len() == 0 {
        relative
    } else {
        prefix + seq!['/'] + relative
    }
}

/// The object key of a file.
pub fn s3_key(prefix: &str, relative: &str) -> (r: String)
    ensures
        r@ == s3_key_of(prefix@, relative@),
{
    let p = chars_of(prefix);
    if p.len() == 0 {
        owned(relative)
    } else {
        let mut out = p;
        out.push('/');
        push_str_chars(&mut out, relative);
        string_of(&out)
    }
}

/// A relative path with its backslashes turned into slashes.
pub open spec fn slashed(s: Seq<char>) -> Seq<char> {
    Seq::new(s.len(), |i: int| if s[i] == '\\' { '/' } else { s[i] })
}

/// A relative path with its backslashes turned into slashes.
pub fn slashed_path(path: &str) -> (r: String)
    ensures
        r@ == slashed(path@),
{
    let v = chars_of(path);
    let mut out: Vec<char> = Vec::new();
    let mut i: usize = 0;
    while i < v.len()
        invariant
            i <= v.len(),
            out@ == slashed(v@).take(i as int),
        decreases v.len() - i,
    {
        let c = if v[i] == '\\' {
            '/'
        } else {
            v[i]
        };
        out.push(c);
        assert(out@ =~= slashed(v@).take(i + 1));
        i = i + 1;
    }
    assert(slashed(v@).take(v.len() as int) =~= slashed(v@));
    string_of(&out)
}

/// The file whose size is the largest, the last one among equals (the
/// files being sorted by size with a stable sort and the last one taken).
pub open spec fn is_largest_last(sizes: Seq<u64>, i: int) -> bool {
    &&& 0 <= i < sizes.len()
    &&& forall|k: int| 0 <= k < sizes.len() ==> #[trigger] sizes[k] <= sizes[i]
    &&& forall|k: int| i < k < sizes.len() ==> #[trigger] sizes[k] < sizes[i]
}

/// The index of the largest file, the last one among equals; none for no files.
pub fn largest_file(sizes: &Vec<u64>) -> (r: Option<usize>)
    ensures
        match r {
            Some(i) => is_largest_last(sizes@, i as int),
            None => sizes@.len() == 0,
        },
{
    if sizes.len() == 0 {
        return None;
    }
    let mut best: usize = 0;
    let mut i: usize = 1;
    while i < sizes.len()
        invariant
            1 <= i <= sizes.len(),
            best < i,
            forall|k: int| 0 <= k < i ==> #[trigger] sizes@[k] <= sizes@[best as int],
            forall|k: int| best < k < i ==> #[trigger] sizes@[k] < sizes@[best as int],
        decreases sizes.len() - i,
    {
        if sizes[i] >= sizes[best] {
            best = i;
        }
        i = i + 1;
    }
    Some(best)
}

// ---------------------------------------------------------------------------
// Which link
// ---------------------------------------------------------------------------

/// The kind of download link a torrent gets.
#[derive(Debug, Clone, Copy, PartialEq, Eq, Structural)]
pub enum LinkPlan {
    /// Neither the local server nor S3 is on.
    NoLink,
    /// A link of the local server.
    Local,
    /// A presigned S3 link.
    S3,
}

/// The kind of download link, or the error of a torrent without content:
/// no link where neither the local server nor S3 is on, the local server's
/// where it is on, else S3's.
pub open spec fn link_plan_of(local_enabled: bool, s3_enabled: bool, content_path: Option<Seq<char>>) -> Result<LinkPlan, Seq<char>> {
    let path = match content_path {
        Some(p) => p,
        None => seq![],
    };
    if !local_enabled && !s3_enabled {
        Ok(LinkPlan::NoLink)
    } else if path.len() == 0 {
        Err("Torrent content path is missing."@)
    } else if local_enabled {
        Ok(LinkPlan::Local)
    } else {
        Ok(LinkPlan::S3)
    }
}

/// The kind of download link for a torrent with the given content path.
pub fn link_plan(settings: &Settings, content_path: Option<&String>) -> (r: Result<LinkPlan, String>)
    ensures
        match r {
            Ok(p) => link_plan_of(settings.local_server.enabled, settings.s3.enabled, match content_path {
                Some(c) => Some(c@),
                None => None,
            }) == Ok::<LinkPlan, Seq<char>>(p),
            Err(e) => link_plan_of(settings.local_server.enabled, settings.s3.enabled, match content_path {
                Some(c) => Some(c@),
                None => None,
            }) == Err::<LinkPlan, Seq<char>>(e@),
        },
{
    let local = settings.local_server.enabled;
    let s3 = settings.s3.enabled;
    if !local && !s3 {
        return Ok(LinkPlan::NoLink);
    }
    let empty = match content_path {
        Some(c) => chars_of(c.as_str()).len() == 0,
        None => true,
    };
    if empty {
        Err(owned("Torrent content path is missing."))
    } else if local {
        Ok(LinkPlan::Local)
    } else {
        Ok(LinkPlan::S3)
    }
}

// ---------------------------------------------------------------------------
// Local-server links
// ---------------------------------------------------------------------------

/// An ASCII letter or digit.
pub open spec fn is_alphanumeric(c: char) -> bool {
    ('A' <= c && c <= 'Z') || ('a' <= c && c <= 'z') || ('0' <= c && c <= '9')
}

/// `n` characters drawn from `rand`'s `Alphanumeric` distribution with the
/// thread's generator.  The contract claims only what holds of every draw:
/// there are `n` of them and each is an ASCII letter or digit.
#[verifier::external_body]
fn random_alphanumeric(n: usize) -> (r: String)
    ensures
        r@.len() == n,
        forall|i: int| 0 <= i < n ==> is_alphanumeric(#[trigger] r@[i]),
{
    rand::thread_rng().sample_iter(&rand::distributions::Alphanumeric).take(n).map(char::from).collect()
}

/// A new local-server link: its token, its address and when it expires.
pub struct LocalLink {
    pub token: String,
    pub url: String,
    pub expires_at: i64,
}

/// `link_expiry` converted with `as i64` (which wraps above
/// `i64::MAX`).
pub open spec fn expiry_as_i64(link_expiry: u64) -> int {
    if link_expiry <= i64::MAX {
        link_expiry as int
    } else {
        link_expiry - 0x1_0000_0000_0000_0000int
    }
}

/// A new local-server link for `torrent_name`, made at `now` (seconds): a
/// token of 32 random letters and digits, the address that serves it, and
/// the time `now + link_expiry`.  Where that sum overflows `i64` the
/// addition panics, so those inputs are left out.
pub fn new_local_link(settings: &Settings, torrent_name: &str, now: i64) -> (r: LocalLink)
    requires
        i64::MIN <= now + expiry_as_i64(settings.local_server.link_expiry) <= i64::MAX,
    ensures
        r.token@.len() == 32,
        forall|i: int| 0 <= i < 32 ==> is_alphanumeric(#[trigger] r.token@[i]),
        r.url@ == local_link(settings.local_server.base_url.deep_view(), r.token@, torrent_name@),
        r.expires_at == now + expiry_as_i64(settings.local_server.link_expiry),
{
    let token = random_alphanumeric(32);
    let base: Option<&String> = match &settings.local_server.base_url {
        Some(b) => Some(b),
        None => None,
    };
    let url = local_download_url(base, token.as_str(), torrent_name);
    let e: i64 = if settings.local_server.link_expiry <= 0x7FFF_FFFF_FFFF_FFFFu64 {
        settings.local_server.link_expiry as i64
    } else {
        (settings.local_server.link_expiry as i128 - 0x1_0000_0000_0000_0000i128) as i64
    };
    LocalLink { token, url, expires_at: now + e }
}

/// A zipped folder is asked for with `zip=true` or `zip=1`.
pub fn zip_requested(zip: Option<&String>) -> (r: bool)
    ensures
        r == match zip {
            Some(v) => v@ == "true"@ || v@ == "1"@,
            None => false,
        },
{
    match zip {
        Some(v) => {
            let c = chars_of(v.as_str());
            crate::bot::eq_lit(&c, "true") || crate::bot::eq_lit(&c, "1")
        },
        None => false,
    }
}

} // verus!
