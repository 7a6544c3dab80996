use vstd::prelude::*;

use crate::error::{CoreError, Result};
use crate::text::starts_with;
use crate::types::strings_view;

verus! {

/// Package files are only taken from this host.
pub const TLU_DOWNLOAD_PREFIX: &'static str = "http://tlu.dl.delivery.mp.microsoft.com/";

pub open spec fn has_prefix(s: Seq<char>, prefix: Seq<char>) -> bool {
    prefix.len() <= s.len() && s.subrange(0, prefix.len() as int) == prefix
}

/// The first url of the list on the package host.
pub open spec fn first_package_url(urls: Seq<Seq<char>>) -> Option<Seq<char>>
    decreases urls.len(),
{
    if urls.len() == 0 {
        None
    } else if has_prefix(urls[0], TLU_DOWNLOAD_PREFIX@) {
        Some(urls[0])
    } else {
        first_package_url(urls.drop_first())
    }
}

/// Picks, out of the urls of a download response, the first one on the package
/// host.
pub fn select_package_url(urls: &Vec<String>) -> (r: Option<String>)
    ensures
        match r {
            Some(u) => first_package_url(strings_view(urls@)) == Some(u@),
            None => first_package_url(strings_view(urls@)) is None,
        },
{
    let ghost all = strings_view(urls@);
    let mut i: usize = 0;
    assert(all.skip(0) =~= all);
    while i < urls.len()
        invariant
            i <= urls@.len(),
            all == strings_view(urls@),
            first_package_url(all) == first_package_url(all.skip(i as int)),
        decreases urls@.len() - i,
    {
        assert(all.skip(i as int).drop_first() =~= all.skip(i + 1));
        assert(all.skip(i as int)[0] == urls@[i as int]@);
        if starts_with(urls[i].as_str(), TLU_DOWNLOAD_PREFIX) {
            return Some(urls[i].clone());
        }
        i = i + 1;
    }
    assert(all.skip(i as int) =~= Seq::<Seq<char>>::empty());
    None
}

/// The package url of an appx download, or the error that there is none.
pub fn appx_download_link(urls: &Vec<String>) -> (r: Result<String>)
    ensures
        match first_package_url(strings_view(urls@)) {
            Some(u) => r matches Ok(link) && link@ == u,
            None => r matches Err(CoreError::DownloadUrlNotFound),
        },
{
    match select_package_url(urls) {
        Some(link) => Ok(link),
        None => Err(CoreError::DownloadUrlNotFound),
    }
}

/// The url an msixvc package is downloaded from: the first of its urls.
pub fn msixvc_download_url(download_urls: &Vec<String>) -> (r: Result<&String>)
    ensures
        download_urls@.len() == 0 ==> r matches Err(CoreError::NoDownloadUrls),
        download_urls@.len() > 0 ==> (r matches Ok(u) && *u == download_urls@[0]),
{
    if download_urls.len() == 0 {
        Err(CoreError::NoDownloadUrls)
    } else {
        Ok(&download_urls[0])
    }
}

} // verus!
