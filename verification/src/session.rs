//! The session controller.
//!
//! Owns the photo history, the preview cache and the operator's
//! settings, and routes each arriving photo: into the history, onto the
//! display, and — when auto mode is on — into the print pipeline.

use vstd::prelude::*;
use crate::cache::{PreviewCache, fifo_insert};
use crate::imaging::PreviewImage;

verus! {

/// How many previews the cache keeps at most.
pub const DEFAULT_CACHE_BOUND: usize = 13;

/// Default horizontal offset of the overlay rectangle, in document points.
pub const DEFAULT_RECT_X: i32 = 215;

/// Default vertical offset of the overlay rectangle, in document points.
pub const DEFAULT_RECT_Y: i32 = 380;

/// Default width of the overlay rectangle, in document points.
pub const DEFAULT_RECT_WIDTH: i32 = 360;

/// Default height of the overlay rectangle, in document points.
pub const DEFAULT_RECT_HEIGHT: i32 = 220;

/// What the surrounding application must do after a photo arrived.
#[derive(Clone, Copy, Debug, PartialEq, Eq, Structural)]
pub enum PhotoAction {
    /// Show the photo; no print job is queued.
    DisplayOnly,
    /// Show the photo and queue a print job for it.
    QueuePrint,
}

/// The most recent `bound` elements of `history` (all of them when it
/// holds fewer), oldest first.
pub open spec fn recent_paths(history: Seq<Seq<char>>, bound: int) -> Seq<Seq<char>> {
    if history.len() > bound {
        history.skip(history.len() - bound)
    } else {
        history
    }
}

/// The elements of `paths` absent from `keys`, in order.
pub open spec fn missing_from(paths: Seq<Seq<char>>, keys: Seq<Seq<char>>) -> Seq<Seq<char>>
    decreases paths.len(),
{
    if paths.len() == 0 {
        Seq::empty()
    } else {
        let rest = missing_from(paths.drop_last(), keys);
        if keys.contains(paths.last()) {
            rest
        } else {
            rest.push(paths.last())
        }
    }
}

/// The session controller.
pub struct SessionController {
    /// Every accepted photo path seen this session, oldest first.
    pub image_list: Vec<String>,
    /// Path of the selected template document, if any.
    pub template_path: Option<String>,
    /// Bounded cache of decoded previews.
    pub cache: PreviewCache,
    /// Index into `image_list` of the photo on display.
    pub current_index: usize,
    /// Whether arriving photos are printed automatically.
    pub is_auto_work: bool,
}

impl SessionController {
    /// The cache is well formed and the display index stays in range.
    pub open spec fn wf(&self) -> bool {
        &&& self.cache.wf()
        &&& self.image_list@.len() == 0 ==> self.current_index == 0
        &&& self.image_list@.len() > 0 ==> self.current_index < self.image_list@.len()
    }

    /// A fresh session: empty history, empty cache with the default
    /// bound, no template, auto mode off.
    pub fn new() -> (controller: Self)
        ensures
            controller.wf(),
            controller.image_list@.len() == 0,
            controller.template_path is None,
            controller.cache.keys() == Seq::<Seq<char>>::empty(),
            controller.cache.bound == DEFAULT_CACHE_BOUND,
            controller.current_index == 0,
            !controller.is_auto_work,
    {
        SessionController {
            image_list: Vec::new(),
            template_path: None,
            cache: PreviewCache::new(DEFAULT_CACHE_BOUND),
            current_index: 0,
            is_auto_work: false,
        }
    }

    /// Routes one arriving photo: appends it to the history and shows
    /// it; when auto mode is on, the caller must also queue a print job
    /// for it.
    pub fn note_photo(&mut self, path: String) -> (action: PhotoAction)
        requires
            old(self).wf(),
            old(self).image_list@.len() < usize::MAX,
        ensures
            final(self).wf(),
            final(self).image_list@ == old(self).image_list@.push(path),
            final(self).current_index == final(self).image_list@.len() - 1,
            final(self).cache == old(self).cache,
            final(self).template_path == old(self).template_path,
            final(self).is_auto_work == old(self).is_auto_work,
            action == (if old(self).is_auto_work {
                PhotoAction::QueuePrint
            } else {
                PhotoAction::DisplayOnly
            }),
    {
        self.image_list.push(path);
        self.current_index = self.image_list.len() - 1;
        if self.is_auto_work {
            PhotoAction::QueuePrint
        } else {
            PhotoAction::DisplayOnly
        }
    }

    /// The paths among the most recent `bound` history entries whose
    /// previews are not cached yet, oldest first: exactly the decodes
    /// the interactive surface performs before it repaints.
    pub fn pending_previews(&self) -> (pending: Vec<String>)
        ensures
            pending.deep_view() == missing_from(
                recent_paths(self.image_list.deep_view(), self.cache.bound as int),
                self.cache.keys(),
            ),
    {
        let len = self.image_list.len();
        let start = if len >= self.cache.bound {
            len - self.cache.bound
        } else {
            0
        };
        let ghost recent = recent_paths(self.image_list.deep_view(), self.cache.bound as int);
        proof {
            assert(recent =~= self.image_list.deep_view().subrange(start as int, len as int));
        }
        let mut pending: Vec<String> = Vec::new();
        let mut i: usize = start;
        while i < len
            invariant
                start <= i <= len,
                len == self.image_list@.len(),
                pending.deep_view() == missing_from(
                    self.image_list.deep_view().subrange(start as int, i as int),
                    self.cache.keys(),
                ),
            decreases len - i,
        {
            let ghost prefix = self.image_list.deep_view().subrange(start as int, i as int);
            let ghost next = self.image_list.deep_view().subrange(start as int, i + 1 as int);
            proof {
                assert(next.drop_last() =~= prefix);
                assert(next.last() == self.image_list.deep_view()[i as int]);
            }
            if !self.cache.contains(&self.image_list[i]) {
                pending.push(self.image_list[i].clone());
            }
            i = i + 1;
        }
        proof {
            assert(self.image_list.deep_view().subrange(start as int, len as int) =~= recent);
        }
        pending
    }

    /// Stores a decoded preview in the cache; the oldest cached preview
    /// is evicted when the cache is full.
    pub fn store_preview(&mut self, path: String, preview: PreviewImage)
        requires
            old(self).wf(),
        ensures
            final(self).wf(),
            final(self).cache.keys() == fifo_insert(
                old(self).cache.keys(),
                path@,
                old(self).cache.bound as int,
            ),
            final(self).cache.bound == old(self).cache.bound,
            final(self).image_list == old(self).image_list,
            final(self).template_path == old(self).template_path,
            final(self).current_index == old(self).current_index,
            final(self).is_auto_work == old(self).is_auto_work,
    {
        self.cache.insert(path, preview);
    }

    /// The cached preview for a photo path, if present: exactly the
    /// preview that was stored for that path.
    pub fn get_preview(&self, path: &String) -> (found: Option<&PreviewImage>)
        ensures
            found is Some <==> self.cache.keys().contains(path@),
            match found {
                Some(preview) => exists|i: int|
                    0 <= i < self.cache.entries@.len() && self.cache.entries@[i].0@ == path@
                        && *preview == self.cache.entries@[i].1,
                None => true,
            },
    {
        self.cache.get(path)
    }

    /// Shows the previous photo in the history, if any is before the
    /// one on display.
    pub fn show_previous(&mut self)
        requires
            old(self).wf(),
        ensures
            final(self).wf(),
            final(self).current_index == if old(self).current_index > 0 {
                old(self).current_index - 1
            } else {
                0int
            },
            final(self).image_list == old(self).image_list,
            final(self).cache == old(self).cache,
            final(self).template_path == old(self).template_path,
            final(self).is_auto_work == old(self).is_auto_work,
    {
        if self.current_index > 0 {
            self.current_index = self.current_index - 1;
        }
    }

    /// Shows the next photo in the history, if any is after the one on
    /// display.
    pub fn show_next(&mut self)
        requires
            old(self).wf(),
        ensures
            final(self).wf(),
            final(self).current_index == if old(self).current_index + 1
                < old(self).image_list@.len() {
                old(self).current_index + 1
            } else {
                old(self).current_index as int
            },
            final(self).image_list == old(self).image_list,
            final(self).cache == old(self).cache,
            final(self).template_path == old(self).template_path,
            final(self).is_auto_work == old(self).is_auto_work,
    {
        let len = self.image_list.len();
        if len > 0 && self.current_index < len - 1 {
            self.current_index = self.current_index + 1;
        }
    }

    /// Turns automatic printing of arriving photos on or off.
    pub fn set_auto_work(&mut self, enabled: bool)
        ensures
            final(self).is_auto_work == enabled,
            final(self).image_list == old(self).image_list,
            final(self).cache == old(self).cache,
            final(self).template_path == old(self).template_path,
            final(self).current_index == old(self).current_index,
    {
        self.is_auto_work = enabled;
    }

    /// Selects a new template document for subsequent print jobs.
    pub fn set_template(&mut self, path: String)
        ensures
            final(self).template_path == Some(path),
            final(self).image_list == old(self).image_list,
            final(self).cache == old(self).cache,
            final(self).current_index == old(self).current_index,
            final(self).is_auto_work == old(self).is_auto_work,
    {
        self.template_path = Some(path);
    }
}

} // verus!
