//! The decisions of the system tray widget: the icons it holds, by the
//! identifier of their item, and the byte order of icon pixels.

use vstd::prelude::*;

use crate::image::{Filter, Resize};

verus! {

/// The identifier of a status notifier item.
#[derive(Clone, Copy, Eq, PartialEq, Structural, Hash, Debug)]
pub struct SniId(pub u64);

/// A tray whose icons are `icon_size` pixels square.
#[derive(Clone, Copy, Debug)]
pub struct Tray {
    pub icon_size: u32,
}

impl Tray {
    /// A tray whose icons are `icon_size` pixels square.
    pub fn new(icon_size: u32) -> (t: Self)
        ensures
            t.icon_size == icon_size,
    {
        Tray { icon_size }
    }

    /// The size that icons are resized to.
    pub fn icon_resize(&self) -> (r: Resize)
        ensures
            r == (Resize { width: self.icon_size, height: self.icon_size, filter: Filter::Auto }),
    {
        Resize { width: self.icon_size, height: self.icon_size, filter: Filter::Auto }
    }
}

/// `pixels` with the bytes of each whole group of four in reverse order (ARGB
/// in network order to RGBA in memory on a little-endian machine); bytes
/// after the last whole group stay.
pub open spec fn reversed_pixels(pixels: Seq<u8>) -> Seq<u8> {
    Seq::new(
        pixels.len(),
        |i: int|
            if i < pixels.len() - pixels.len() % 4 {
                pixels[i - i % 4 + 3 - i % 4]
            } else {
                pixels[i]
            },
    )
}

/// Reverses the bytes of each whole group of four of `pixels`.
pub fn reverse_pixel_bytes(pixels: &mut Vec<u8>)
    ensures
        final(pixels)@ == reversed_pixels(old(pixels)@),
{
    let n = pixels.len();
    let whole = n - n % 4;
    let mut i: usize = 0;
    while i < whole
        invariant
            n == pixels@.len(),
            n == old(pixels)@.len(),
            whole == n - n % 4,
            i % 4 == 0,
            i <= whole,
            forall|j: int| 0 <= j < i ==> #[trigger] pixels@[j] == reversed_pixels(old(pixels)@)[j],
            forall|j: int| i <= j < n ==> #[trigger] pixels@[j] == old(pixels)@[j],
        decreases whole - i,
    {
        let b0 = pixels[i];
        let b1 = pixels[i + 1];
        let b2 = pixels[i + 2];
        let b3 = pixels[i + 3];
        pixels.set(i, b3);
        pixels.set(i + 1, b2);
        pixels.set(i + 2, b1);
        pixels.set(i + 3, b0);
        i = i + 4;
    }
}

/// The icons of the tray, in order: each widget `W` with the item it shows.
pub struct TrayIcons<W> {
    icons: Vec<(W, SniId)>,
}

impl<W> TrayIcons<W> {
    /// The icons, in order.
    pub closed spec fn icons_view(&self) -> Seq<(W, SniId)> {
        self.icons@
    }

    /// No icons.
    pub fn new() -> (t: Self)
        ensures
            t.icons_view().len() == 0,
    {
        TrayIcons { icons: Vec::new() }
    }

    /// The number of icons.
    pub fn len(&self) -> (n: usize)
        ensures
            n == self.icons_view().len(),
    {
        self.icons.len()
    }

    /// The widget of the icon at `index`.
    pub fn widget(&self, index: usize) -> (w: &W)
        requires
            index < self.icons_view().len(),
        ensures
            *w == self.icons_view()[index as int].0,
    {
        &self.icons[index].0
    }

    /// Adds the icon `widget` of the item `id` at the end.
    pub fn push(&mut self, widget: W, id: SniId)
        ensures
            final(self).icons_view() == old(self).icons_view().push((widget, id)),
    {
        self.icons.push((widget, id));
    }

    /// Removes the first icon of the item `id`, if there is one, and returns
    /// its widget, to be destroyed.
    pub fn remove(&mut self, id: SniId) -> (w: Option<W>)
        ensures
            match w {
                Some(widget) => exists|k: int|
                    0 <= k < old(self).icons_view().len() && old(self).icons_view()[k].1 == id
                        && (forall|j: int| 0 <= j < k ==> old(self).icons_view()[j].1 != id)
                        && old(self).icons_view()[k].0 == widget && final(self).icons_view()
                        == old(self).icons_view().remove(k),
                None => (forall|j: int|
                    0 <= j < old(self).icons_view().len() ==> old(self).icons_view()[j].1 != id)
                    && final(self).icons_view() == old(self).icons_view(),
            },
    {
        let n = self.icons.len();
        let mut i: usize = 0;
        while i < n
            invariant
                n == self.icons@.len(),
                self.icons@ == old(self).icons@,
                i <= n,
                forall|j: int| 0 <= j < i ==> self.icons@[j].1 != id,
            decreases n - i,
        {
            if self.icons[i].1.0 == id.0 {
                let ghost before = self.icons@;
                let (widget, _) = self.icons.remove(i);
                proof {
                    assert(before[i as int].1 == id);
                    assert(before[i as int].0 == widget);
                    assert(self.icons@ == before.remove(i as int));
                    let k = i as int;
                    assert(0 <= k < old(self).icons_view().len() && old(self).icons_view()[k].1 == id
                        && (forall|j: int| 0 <= j < k ==> old(self).icons_view()[j].1 != id)
                        && old(self).icons_view()[k].0 == widget && self.icons_view()
                        == old(self).icons_view().remove(k));
                }
                return Some(widget);
            }
            i = i + 1;
        }
        None
    }
}

} // verus!
