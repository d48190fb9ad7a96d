//! Filesystem layout of downloaded artifacts, and the verified retrieval
//! decisions: size ceilings and the self-healing purge of stale store keys.
//!
//! The shell observes the disk (does the file exist, and how large is it)
//! and passes the observation in; every store write and every verdict is
//! decided here.

use vstd::prelude::*;

use crate::errors::MediaDownloaderError;
use crate::metadata_store::MetadataStore;
use crate::strutil::{dec_of, u64_to_string};
use crate::{MAX_FILE_SIZE, MAX_FILE_SIZE_PHOTO};

verus! {

/// Where the video with this id is expected on disk:
/// `<target dir><id>.<video extension>`.
pub open spec fn video_target_path(id: Seq<char>) -> Seq<char> {
    "/tmp/media_downloaded/"@ + id + ".mp4"@
}

/// The metadata-store key of image number `index` of a slideshow.
pub open spec fn image_key(id: Seq<char>, index: nat) -> Seq<char> {
    id + "_"@ + dec_of(index)
}

/// Where image number `index` of the slideshow with this id is expected on
/// disk: `<target dir>images/<id>_<index>.<image extension>`.
pub open spec fn image_target_path(id: Seq<char>, index: nat) -> Seq<char> {
    "/tmp/media_downloaded/images/"@ + id + "_"@ + dec_of(index) + ".jpeg"@
}

/// Builds the on-disk path of a video.
pub fn video_path_for(id: &str) -> (r: String)
    ensures
        r@ == video_target_path(id@),
{
    let mut s = String::from_str("/tmp/media_downloaded/");
    s.append(id);
    s.append(".mp4");
    proof {
        assert(s@ =~= video_target_path(id@));
    }
    s
}

/// Builds the metadata-store key of a slideshow image.
pub fn image_key_for(id: &str, index: u64) -> (r: String)
    ensures
        r@ == image_key(id@, index as nat),
{
    let mut s = id.to_owned();
    s.append("_");
    let d = u64_to_string(index);
    s.append(d.as_str());
    proof {
        assert(s@ =~= image_key(id@, index as nat));
    }
    s
}

/// Builds the on-disk path of a slideshow image.
pub fn image_path_for(id: &str, index: u64) -> (r: String)
    ensures
        r@ == image_target_path(id@, index as nat),
{
    let mut s = String::from_str("/tmp/media_downloaded/images/");
    s.append(id);
    s.append("_");
    let d = u64_to_string(index);
    s.append(d.as_str());
    s.append(".jpeg");
    proof {
        assert(s@ =~= image_target_path(id@, index as nat));
    }
    s
}

/// Retrieval verdict for a video artifact.
///
/// `observed_size` is what the shell saw on disk under the expected path
/// (`None`: the file is absent or unreadable).  A missing file purges the
/// stale store key — self-healing — and is an error; a file over the size
/// ceiling is rejected and left on disk; otherwise the expected path is
/// returned for delivery.
pub fn retrieve_blob(
    store: &mut MetadataStore,
    url_id: &str,
    observed_size: Option<u64>,
) -> (r: Result<String, MediaDownloaderError>)
    requires
        old(store).wf(),
    ensures
        final(store).wf(),
        match observed_size {
            None => r == Err::<String, _>(MediaDownloaderError::BlobRetrievingError)
                && final(store)@ == old(store)@.remove(url_id@),
            Some(sz) => *final(store) == *old(store) && if sz > MAX_FILE_SIZE {
                r == Err::<String, _>(MediaDownloaderError::FileSizeExceeded)
            } else {
                r matches Ok(p) && p@ == video_target_path(url_id@)
            },
        },
{
    match observed_size {
        None => {
            store.del(url_id);
            Err(MediaDownloaderError::BlobRetrievingError)
        },
        Some(sz) => {
            if sz > MAX_FILE_SIZE {
                Err(MediaDownloaderError::FileSizeExceeded)
            } else {
                Ok(video_path_for(url_id))
            }
        },
    }
}

/// The store after the per-image retrieval sweep: the key of every image
/// whose file was absent has been purged.
pub open spec fn store_after_image_retrieval(
    m: Map<Seq<char>, (Seq<char>, Option<u64>)>,
    id: Seq<char>,
    sizes: Seq<Option<u64>>,
) -> Map<Seq<char>, (Seq<char>, Option<u64>)>
    decreases sizes.len(),
{
    if sizes.len() == 0 {
        m
    } else {
        let prev = store_after_image_retrieval(m, id, sizes.drop_last());
        if sizes.last() is None {
            prev.remove(image_key(id, (sizes.len() - 1) as nat))
        } else {
            prev
        }
    }
}

/// The paths of the images that survive the sweep: present on disk and not
/// over the per-image size ceiling, in index order.
pub open spec fn retrieved_images_of(id: Seq<char>, sizes: Seq<Option<u64>>) -> Seq<Seq<char>>
    decreases sizes.len(),
{
    if sizes.len() == 0 {
        Seq::empty()
    } else {
        let rest = retrieved_images_of(id, sizes.drop_last());
        match sizes.last() {
            Some(sz) => if sz <= MAX_FILE_SIZE_PHOTO {
                rest.push(image_target_path(id, (sizes.len() - 1) as nat))
            } else {
                rest
            },
            None => rest,
        }
    }
}

/// Retrieval verdict for a slideshow.
///
/// `observed_sizes[n]` is what the shell saw on disk for image `n`.  A
/// missing image purges its store key and is skipped; an oversized image is
/// skipped silently; an empty surviving set is an error.
pub fn retrieve_images(
    store: &mut MetadataStore,
    url_id: &str,
    observed_sizes: &Vec<Option<u64>>,
) -> (r: Result<Vec<String>, MediaDownloaderError>)
    requires
        old(store).wf(),
    ensures
        final(store).wf(),
        final(store)@ == store_after_image_retrieval(old(store)@, url_id@, observed_sizes@),
        ({
            let imgs = retrieved_images_of(url_id@, observed_sizes@);
            if imgs.len() == 0 {
                r == Err::<Vec<String>, _>(MediaDownloaderError::ImagesNotDownloaded)
            } else {
                r matches Ok(v) && v.deep_view() == imgs
            }
        }),
{
    let mut images: Vec<String> = Vec::new();
    let count = observed_sizes.len();
    let mut n: usize = 0;
    while n < count
        invariant
            n <= count,
            count == observed_sizes@.len(),
            store.wf(),
            store@ == store_after_image_retrieval(
                old(store)@,
                url_id@,
                observed_sizes@.subrange(0, n as int),
            ),
            images.deep_view() == retrieved_images_of(
                url_id@,
                observed_sizes@.subrange(0, n as int),
            ),
        decreases count - n,
    {
        proof {
            assert(observed_sizes@.subrange(0, n + 1).drop_last() =~= observed_sizes@.subrange(
                0,
                n as int,
            ));
            assert(observed_sizes@.subrange(0, n + 1).last() == observed_sizes@[n as int]);
        }
        match observed_sizes[n] {
            None => {
                let key = image_key_for(url_id, n as u64);
                store.del(key.as_str());
            },
            Some(sz) => {
                if sz <= MAX_FILE_SIZE_PHOTO {
                    images.push(image_path_for(url_id, n as u64));
                    proof {
                        assert(images.deep_view() =~= retrieved_images_of(
                            url_id@,
                            observed_sizes@.subrange(0, n + 1),
                        ));
                    }
                }
            },
        }
        n += 1;
    }
    proof {
        assert(observed_sizes@.subrange(0, count as int) =~= observed_sizes@);
    }
    if images.is_empty() {
        assert(retrieved_images_of(url_id@, observed_sizes@).len() == 0) by {
            assert(images.deep_view().len() == 0);
        }
        Err(MediaDownloaderError::ImagesNotDownloaded)
    } else {
        Ok(images)
    }
}

} // verus!
