//! The description of an image widget: what to show, and the size to resize
//! it to.

use vstd::prelude::*;

use crate::image::{png, svg, Pixmap, Resize};

verus! {

/// What an image widget shows.
#[derive(Clone, Debug)]
pub enum Type {
    Png(png::Data),
    Svg(svg::Data),
    Pixmap(Pixmap),
}

/// An image widget to be made: what it shows, and the size to resize it to.
#[derive(Debug)]
pub struct Image {
    ty: Type,
    resize: Option<Resize>,
}

impl Image {
    /// What the image shows.
    pub closed spec fn ty_view(&self) -> Type {
        self.ty
    }

    /// The size to resize it to, if any.
    pub closed spec fn resize_view(&self) -> Option<Resize> {
        self.resize
    }

    /// A PNG image, not resized.
    pub fn png(data: png::Data) -> (i: Self)
        ensures
            i.ty_view() == Type::Png(data),
            i.resize_view() is None,
    {
        Image { ty: Type::Png(data), resize: None }
    }

    /// An SVG image, not resized.
    pub fn svg(data: svg::Data) -> (i: Self)
        ensures
            i.ty_view() == Type::Svg(data),
            i.resize_view() is None,
    {
        Image { ty: Type::Svg(data), resize: None }
    }

    /// An image of `width` by `height` RGBA pixels, not resized.
    pub fn rgba(pixels: Vec<u8>, width: u32, height: u32) -> (i: Self)
        ensures
            i.ty_view() == Type::Png(png::Data::Rgba { width, height, pixels }),
            i.resize_view() is None,
    {
        Image { resize: None, ty: Type::Png(png::Data::Rgba { width, height, pixels }) }
    }

    /// An image already decoded, not resized.
    pub fn from_pixmap(pixmap: Pixmap) -> (i: Self)
        ensures
            i.ty_view() == Type::Pixmap(pixmap),
            i.resize_view() is None,
    {
        Image { ty: Type::Pixmap(pixmap), resize: None }
    }

    /// The same image, resized to `resize`.
    pub fn resize(self, resize: Resize) -> (i: Self)
        ensures
            i.ty_view() == self.ty_view(),
            i.resize_view() == Some(resize),
    {
        Image { ty: self.ty, resize: Some(resize) }
    }

    /// What the image shows, and the size to resize it to.
    pub fn into_parts(self) -> (r: (Type, Option<Resize>))
        ensures
            r.0 == self.ty_view(),
            r.1 == self.resize_view(),
    {
        (self.ty, self.resize)
    }
}

} // verus!
