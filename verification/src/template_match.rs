//! The parameter and result shapes of an image template-matching
//! recognizer. The matching itself runs on an image library outside the
//! core; these types model, in plain values, what the scheduler reads and
//! writes around it.

use vstd::prelude::*;

use crate::resource::ResourceData;

verus! {

/// A point on the captured image.
#[derive(Debug, Clone, Copy, PartialEq, Eq, Structural)]
pub struct Position {
    pub x: i32,
    pub y: i32,
}

/// An extent on the captured image.
#[derive(Debug, Clone, Copy, PartialEq, Eq, Structural)]
pub struct Size {
    pub width: i32,
    pub height: i32,
}

/// The parameter of a template match: the template image to look for and
/// an optional region of interest `[x, y, width, height]`.
pub struct OpenCVTemplateMatchAction {
    pub template: String,
    pub roi: Option<Vec<u64>>,
}

/// Where the best match was found.
#[derive(Debug, Clone, Copy, PartialEq, Eq, Structural)]
pub struct OpenCVTemplateMatchResultPosition {
    pub x: i32,
    pub y: i32,
}

/// How large the matched template is.
#[derive(Debug, Clone, Copy, PartialEq, Eq, Structural)]
pub struct OpenCVTemplateMatchResultSize {
    pub width: i32,
    pub height: i32,
}

impl OpenCVTemplateMatchResultPosition {
    /// The position written out as a value, for a controller's input
    /// action.
    pub fn to_resource(&self) -> (r: ResourceData)
        ensures
            ({
                let pairs = crate::resource::pairs_model(r->Object_0@);
                &&& r is Object
                &&& pairs.len() == 2
                &&& pairs[0].0 == "x"@
                &&& pairs[0].1 == crate::resource::ValueModel::Int(self.x as int)
                &&& pairs[1].0 == "y"@
                &&& pairs[1].1 == crate::resource::ValueModel::Int(self.y as int)
            }),
    {
        let x_k: &str = "x";
        let y_k: &str = "y";
        let r = ResourceData::Object(
            vec![
                (x_k.to_owned(), ResourceData::Number(self.x as i64)),
                (y_k.to_owned(), ResourceData::Number(self.y as i64)),
            ],
        );
        proof {
            crate::resource::lemma_pairs_model(r->Object_0@);
        }
        r
    }
}

impl OpenCVTemplateMatchResultSize {
    /// The size written out as a value, for a controller's input action.
    pub fn to_resource(&self) -> (r: ResourceData)
        ensures
            ({
                let pairs = crate::resource::pairs_model(r->Object_0@);
                &&& r is Object
                &&& pairs.len() == 2
                &&& pairs[0].0 == "width"@
                &&& pairs[0].1 == crate::resource::ValueModel::Int(self.width as int)
                &&& pairs[1].0 == "height"@
                &&& pairs[1].1 == crate::resource::ValueModel::Int(self.height as int)
            }),
    {
        let width_k: &str = "width";
        let height_k: &str = "height";
        let r = ResourceData::Object(
            vec![
                (width_k.to_owned(), ResourceData::Number(self.width as i64)),
                (height_k.to_owned(), ResourceData::Number(self.height as i64)),
            ],
        );
        proof {
            crate::resource::lemma_pairs_model(r->Object_0@);
        }
        r
    }
}

} // verus!
