//! A wallpaper shown in the picker.
use vstd::prelude::*;
use crate::media::MediaKind;
use crate::path::{file_name, path_file_name};
use crate::text::owned;

verus! {

#[derive(Debug)]
pub struct WallpaperItem {
    pub path: String,
    pub kind: MediaKind,
}

impl Clone for WallpaperItem {
    fn clone(&self) -> (r: Self)
        ensures
            r == *self,
    {
        WallpaperItem { path: self.path.clone(), kind: self.kind }
    }
}

/// The name a wallpaper shows: its file name, or `wallpaper` when its path has none.
pub open spec fn display_name_spec(path: Seq<char>) -> Seq<char> {
    match file_name(path) {
        Some(n) => n,
        None => "wallpaper"@,
    }
}

impl WallpaperItem {
    pub fn display_name(&self) -> (r: String)
        ensures
            r@ == display_name_spec(self.path@),
    {
        match path_file_name(self.path.as_str()) {
            Some(n) => n,
            None => owned("wallpaper"),
        }
    }

    pub fn is_live(&self) -> (r: bool)
        ensures
            r == (self.kind == MediaKind::Live),
    {
        self.kind == MediaKind::Live
    }
}

} // verus!
