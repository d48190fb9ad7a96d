//! Download-side decisions: the "seen/downloaded" dedup check against the
//! metadata store, the argument contract of the external download tool, the
//! upstream-status rule, and the log filter over the tool's output.

use vstd::prelude::*;

use crate::blobs::{image_key, image_key_for, image_path_for, image_target_path, video_path_for,
    video_target_path};
use crate::errors::MediaDownloaderError;
use crate::formatter::UrlFormatter;
use crate::metadata_store::MetadataStore;
use crate::strutil::{contains_sub, str_contains};
use crate::DEFAULT_REDIS_TTL;

verus! {

/// What one dedup check does to the store: `hit` says whether the key was
/// already present; a miss records the expected on-disk path under the key.
pub open spec fn dedup_check_transition(
    pre: Map<Seq<char>, (Seq<char>, Option<u64>)>,
    post: Map<Seq<char>, (Seq<char>, Option<u64>)>,
    key: Seq<char>,
    path: Seq<char>,
    hit: bool,
) -> bool {
    &&& hit == pre.contains_key(key)
    &&& if hit {
        post == pre
    } else {
        post == pre.insert(key, (path, Some(DEFAULT_REDIS_TTL)))
    }
}

/// Dedup check of a video: present means "already downloaded, skip the
/// work"; absent records the expected path and asks for the download.
pub fn was_video_already_downloaded(store: &mut MetadataStore, url_id: &str) -> (r: bool)
    requires
        old(store).wf(),
    ensures
        final(store).wf(),
        dedup_check_transition(
            old(store)@,
            final(store)@,
            url_id@,
            video_target_path(url_id@),
            r,
        ),
{
    let output_path = video_path_for(url_id);
    match store.get(url_id) {
        Some(_) => true,
        None => {
            store.set(url_id, output_path.as_str());
            false
        },
    }
}

/// Dedup check of slideshow image number `c`, keyed `<id>_<c>`.
pub fn was_image_already_downloaded(store: &mut MetadataStore, url_id: &str, c: i32) -> (r: bool)
    requires
        old(store).wf(),
        c >= 0,
    ensures
        final(store).wf(),
        dedup_check_transition(
            old(store)@,
            final(store)@,
            image_key(url_id@, c as nat),
            image_target_path(url_id@, c as nat),
            r,
        ),
{
    let key = image_key_for(url_id, c as u64);
    let output_path = image_path_for(url_id, c as u64);
    match store.get(key.as_str()) {
        Some(_) => true,
        None => {
            store.set(key.as_str(), output_path.as_str());
            false
        },
    }
}

/// The store after one slideshow download pass: in entry order, every
/// missed image key gets the expected path recorded under it.
pub open spec fn store_after_image_downloads(
    m: Map<Seq<char>, (Seq<char>, Option<u64>)>,
    id: Seq<char>,
    images: Seq<(i32, String)>,
) -> Map<Seq<char>, (Seq<char>, Option<u64>)>
    decreases images.len(),
{
    if images.len() == 0 {
        m
    } else {
        let prev = store_after_image_downloads(m, id, images.drop_last());
        let index = images.last().0 as nat;
        if prev.contains_key(image_key(id, index)) {
            prev
        } else {
            prev.insert(
                image_key(id, index),
                (image_target_path(id, index), Some(DEFAULT_REDIS_TTL)),
            )
        }
    }
}

/// The fetch work a slideshow download pass asks for: one (index, source
/// URL, target path) entry per missed image, in entry order.
pub open spec fn image_fetch_work(
    m: Map<Seq<char>, (Seq<char>, Option<u64>)>,
    id: Seq<char>,
    images: Seq<(i32, String)>,
) -> Seq<(i32, Seq<char>, Seq<char>)>
    decreases images.len(),
{
    if images.len() == 0 {
        Seq::empty()
    } else {
        let rest = image_fetch_work(m, id, images.drop_last());
        let prev = store_after_image_downloads(m, id, images.drop_last());
        let index = images.last().0 as nat;
        if prev.contains_key(image_key(id, index)) {
            rest
        } else {
            rest.push((images.last().0, images.last().1@, image_target_path(id, index)))
        }
    }
}

/// One slideshow download pass: a dedup check per image, keyed
/// `<id>_<index>`; every miss records the expected path and is returned as
/// (index, source URL, target path) work, in order.  Also reports how many
/// images the set carries, which the retrieval step then inspects.
pub fn download_images_from_map(
    store: &mut MetadataStore,
    images: &Vec<(i32, String)>,
    id: &str,
) -> (r: (Vec<(i32, String, String)>, i32))
    requires
        old(store).wf(),
        forall|q: int| 0 <= q < images@.len() ==> (#[trigger] images@[q]).0 >= 0,
        images@.len() <= i32::MAX,
    ensures
        final(store).wf(),
        final(store)@ == store_after_image_downloads(old(store)@, id@, images@),
        r.0.deep_view() == image_fetch_work(old(store)@, id@, images@),
        r.1 == images@.len(),
{
    let mut work: Vec<(i32, String, String)> = Vec::new();
    let count = images.len();
    let mut n: usize = 0;
    while n < count
        invariant
            n <= count,
            count == images@.len(),
            count <= i32::MAX,
            forall|q: int| 0 <= q < images@.len() ==> (#[trigger] images@[q]).0 >= 0,
            store.wf(),
            store@ == store_after_image_downloads(
                old(store)@,
                id@,
                images@.subrange(0, n as int),
            ),
            work.deep_view() == image_fetch_work(old(store)@, id@, images@.subrange(0, n as int)),
        decreases count - n,
    {
        proof {
            assert(images@.subrange(0, n + 1).drop_last() =~= images@.subrange(0, n as int));
            assert(images@.subrange(0, n + 1).last() == images@[n as int]);
        }
        let index = images[n].0;
        if !was_image_already_downloaded(store, id, index) {
            work.push((index, images[n].1.clone(), image_path_for(id, index as u64)));
            proof {
                assert(work.deep_view() =~= image_fetch_work(
                    old(store)@,
                    id@,
                    images@.subrange(0, n + 1),
                ));
            }
        } else {
            proof {
                assert(work.deep_view() =~= image_fetch_work(
                    old(store)@,
                    id@,
                    images@.subrange(0, n + 1),
                ));
            }
        }
        n += 1;
    }
    proof {
        assert(images@.subrange(0, count as int) =~= images@);
    }
    (work, count as i32)
}

/// Idempotence of the dedup check: whatever the first check for a key did,
/// a second check for the same key observes the hit and leaves the store
/// unchanged, so the download work guarded by the check runs at most once.
pub proof fn lemma_dedup_check_idempotent(
    s0: Map<Seq<char>, (Seq<char>, Option<u64>)>,
    s1: Map<Seq<char>, (Seq<char>, Option<u64>)>,
    s2: Map<Seq<char>, (Seq<char>, Option<u64>)>,
    key: Seq<char>,
    path: Seq<char>,
    hit1: bool,
    hit2: bool,
)
    requires
        dedup_check_transition(s0, s1, key, path, hit1),
        dedup_check_transition(s1, s2, key, path, hit2),
    ensures
        hit2,
        s2 == s1,
{
}

/// A deleted key re-arms the dedup check: after the self-healing purge of
/// `key`, the next check misses and asks for a fresh download.
pub proof fn lemma_purged_key_redownloads(
    s0: Map<Seq<char>, (Seq<char>, Option<u64>)>,
    s1: Map<Seq<char>, (Seq<char>, Option<u64>)>,
    key: Seq<char>,
    path: Seq<char>,
    hit: bool,
)
    requires
        dedup_check_transition(s0.remove(key), s1, key, path, hit),
    ensures
        !hit,
        s1.contains_key(key),
{
}

/// The argument contract of the external download tool:
/// `<url> -P <out dir> -f <format selector> -o<id>.%(ext)s --no-mtime`.
pub fn yt_dlp_args(url: &str, url_id: &str) -> (r: Vec<String>)
    ensures
        r.deep_view() =~= seq![
            url@,
            "-P /tmp/media_downloaded/"@,
            "-f bestvideo[ext=mp4]+bestaudio[ext=m4a]/mp4"@,
            "-o"@ + url_id@ + ".%(ext)s"@,
            "--no-mtime"@,
        ],
{
    let mut args: Vec<String> = Vec::new();
    args.push(url.to_owned());
    args.push(String::from_str("-P /tmp/media_downloaded/"));
    args.push(String::from_str("-f bestvideo[ext=mp4]+bestaudio[ext=m4a]/mp4"));
    let mut out_arg = String::from_str("-o");
    out_arg.append(url_id);
    out_arg.append(".%(ext)s");
    args.push(out_arg);
    args.push(String::from_str("--no-mtime"));
    args
}

/// A non-2xx status of an upstream fetch is an unreachable resource.
pub fn fetch_status_step(status: u16) -> (r: Result<(), MediaDownloaderError>)
    ensures
        200 <= status < 300 ==> r is Ok,
        !(200 <= status < 300) ==> r == Err::<(), _>(MediaDownloaderError::UnreachableResource),
{
    if 200 <= status && status < 300 {
        Ok(())
    } else {
        Err(MediaDownloaderError::UnreachableResource)
    }
}

/// The lines of the download tool's output that carry its log marker, in
/// order.
pub open spec fn download_marked(lines: Seq<Seq<char>>) -> Seq<Seq<char>>
    decreases lines.len(),
{
    if lines.len() == 0 {
        Seq::empty()
    } else {
        let rest = download_marked(lines.drop_last());
        if contains_sub(lines.last(), "[download]"@) {
            rest.push(lines.last())
        } else {
            rest
        }
    }
}

/// Keeps exactly the output lines that carry the `[download]` marker.
pub fn download_log_lines(lines: &Vec<String>) -> (r: Vec<String>)
    ensures
        r.deep_view() == download_marked(lines.deep_view()),
{
    let mut out: Vec<String> = Vec::new();
    let count = lines.len();
    let mut i: usize = 0;
    while i < count
        invariant
            i <= count,
            count == lines@.len(),
            out.deep_view() == download_marked(lines.deep_view().subrange(0, i as int)),
        decreases count - i,
    {
        proof {
            assert(lines.deep_view().subrange(0, i + 1).drop_last() =~= lines.deep_view().subrange(
                0,
                i as int,
            ));
            assert(lines.deep_view().subrange(0, i + 1).last() == lines.deep_view()[i as int]);
        }
        if str_contains(lines[i].as_str(), "[download]") {
            out.push(lines[i].clone());
            proof {
                assert(out.deep_view() =~= download_marked(
                    lines.deep_view().subrange(0, i + 1),
                ));
            }
        } else {
            proof {
                assert(out.deep_view() =~= download_marked(
                    lines.deep_view().subrange(0, i + 1),
                ));
            }
        }
        i += 1;
    }
    proof {
        assert(lines.deep_view().subrange(0, count as int) =~= lines.deep_view());
    }
    out
}

/// Decides the generic download of a validated URL: a store hit means no
/// work is owed; a miss records the expected path and yields the exact
/// argument list for the external download tool.
pub fn download_video(store: &mut MetadataStore, url: &UrlFormatter, url_id: &str) -> (r: Option<
    Vec<String>,
>)
    requires
        old(store).wf(),
        url matches UrlFormatter::Valid(_, _),
    ensures
        final(store).wf(),
        dedup_check_transition(
            old(store)@,
            final(store)@,
            url_id@,
            video_target_path(url_id@),
            r is None,
        ),
        r matches Some(args) ==> url matches UrlFormatter::Valid(u, _) && args.deep_view()
            =~= seq![
            u@,
            "-P /tmp/media_downloaded/"@,
            "-f bestvideo[ext=mp4]+bestaudio[ext=m4a]/mp4"@,
            "-o"@ + url_id@ + ".%(ext)s"@,
            "--no-mtime"@,
        ],
{
    let url_str = match url.get_url_string() {
        Ok(s) => s,
        Err(_) => {
            proof {
                assert(false);
            }
            ""
        },
    };
    if was_video_already_downloaded(store, url_id) {
        None
    } else {
        Some(yt_dlp_args(url_str, url_id))
    }
}

} // verus!
