//! From what a decoder or a model file hands over to an image or a network.
//!
//! Nothing here touches a file. A decoder supplies the raw bytes of an image
//! and its size; a model store supplies the seven scalar attributes of a
//! model and its three tensors. This module checks what it is given and
//! builds the values that classification works on.

use vstd::prelude::*;
use crate::error::WnnError;
use crate::tensor::{axes_fit, BitCube, ByteCube, Cube, Grid, IndexRow, PixelGrid, ThresholdCube};
use crate::wnn::{scalars_in_domain, spec_new, Wnn, WnnSpec};

verus! {

/// The number of channels of a decoded colour image.
pub const CHANNELS: usize = 3;

/// The first channel of an interleaved image of `rows x cols` pixels.
pub open spec fn first_channel(rows: nat, cols: nat, raw: Seq<u8>) -> Grid<u8> {
    Grid { rows, cols, cells: Seq::new(rows * cols, |p: int| raw[p * CHANNELS as int]) }
}

/// Takes the first channel of a decoded colour image as its intensities.
///
/// `raw` holds the pixels row by row, `CHANNELS` bytes per pixel. Fails with
/// `DecodeError` when `raw` is not the data of `height x width` pixels.
pub fn image_from_rgb8(height: usize, width: usize, raw: Vec<u8>) -> (r: Result<PixelGrid, WnnError>)
    ensures
        r is Ok <==> axes_fit(height as nat, width as nat, CHANNELS as nat) && raw.len() == height
            * width * CHANNELS,
        r matches Ok(image) ==> image@ == first_channel(height as nat, width as nat, raw@),
        r matches Err(e) ==> e == WnnError::DecodeError,
{
    match ByteCube::from_shape_vec(height, width, CHANNELS, raw) {
        Ok(cube) => {
            let image: PixelGrid = cube.into_plane(0);
            assert(image@.cells =~= first_channel(height as nat, width as nat, raw@).cells);
            Ok(image)
        },
        Err(_) => Err(WnnError::DecodeError),
    }
}

/// The scalar attributes of a persisted model, as they are stored.
pub struct WnnHeader {
    pub num_classes: i64,
    pub num_inputs: i64,
    pub bits_per_input: i64,
    pub num_filter_inputs: i64,
    pub num_filter_entries: i64,
    pub num_filter_hashes: i64,
    pub hash_param: i64,
}

impl WnnHeader {
    /// No attribute is negative or too large for this machine.
    pub open spec fn representable(self) -> bool {
        &&& 0 <= self.num_classes <= usize::MAX
        &&& 0 <= self.num_inputs <= usize::MAX
        &&& 0 <= self.bits_per_input <= usize::MAX
        &&& 0 <= self.num_filter_inputs <= usize::MAX
        &&& 0 <= self.num_filter_entries <= usize::MAX
        &&& 0 <= self.num_filter_hashes <= usize::MAX
        &&& 0 <= self.hash_param
    }

    /// The model that the attributes describe together with three tensors.
    pub open spec fn with_tensors(
        self,
        bloom_filters: Cube<bool>,
        thresholds: Cube<u16>,
        input_order: Seq<u64>,
    ) -> WnnSpec {
        spec_new(
            self.num_classes as nat,
            self.num_filter_entries as nat,
            self.num_filter_hashes as nat,
            self.num_filter_inputs as nat,
            self.hash_param as nat,
            bloom_filters,
            input_order,
            thresholds,
        )
    }

    /// The attributes are well-formed: representable, and in their domains.
    pub open spec fn well_formed(self) -> bool {
        self.representable() && scalars_in_domain(
            self.num_classes as nat,
            self.num_filter_entries as nat,
            self.num_filter_inputs as nat,
            self.hash_param as nat,
        )
    }

    /// The tensors have the shapes that the attributes announce, and make a
    /// valid model.
    pub open spec fn matches_tensors(
        self,
        bloom_filters: Cube<bool>,
        thresholds: Cube<u16>,
        input_order: Seq<u64>,
    ) -> bool {
        let m = self.with_tensors(bloom_filters, thresholds, input_order);
        &&& m.shapes_valid()
        &&& m.num_inputs() == self.num_inputs
        &&& m.bits_per_input() == self.bits_per_input
    }
}

/// An attribute as a size, if it is one on this machine.
fn attribute_as_size(x: i64) -> (r: Option<usize>)
    ensures
        r is Some <==> 0 <= x <= usize::MAX,
        r matches Some(n) ==> n == x,
{
    if x < 0 {
        None
    } else if x as u64 > usize::MAX as u64 {
        None
    } else {
        Some(x as usize)
    }
}

/// Builds a network from the attributes and tensors of a persisted model.
///
/// Fails with `FormatError` when an attribute is not well-formed, and with
/// `ShapeError` when the attributes are well-formed but the tensors do not
/// have the shapes they announce or do not make a valid model.
pub fn wnn_from_parts(
    header: &WnnHeader,
    bloom_filters: BitCube,
    thresholds: ThresholdCube,
    input_order: IndexRow,
) -> (r: Result<Wnn, WnnError>)
    ensures
        r is Ok <==> header.well_formed() && header.matches_tensors(
            bloom_filters@,
            thresholds@,
            input_order@,
        ),
        r matches Ok(wnn) ==> wnn@ == header.with_tensors(
            bloom_filters@,
            thresholds@,
            input_order@,
        ),
        r matches Err(e) ==> e == (if header.well_formed() {
            WnnError::ShapeError
        } else {
            WnnError::FormatError
        }),
{
    let num_classes: usize = match attribute_as_size(header.num_classes) {
        Some(n) => n,
        None => {
            return Err(WnnError::FormatError);
        },
    };
    let num_inputs: usize = match attribute_as_size(header.num_inputs) {
        Some(n) => n,
        None => {
            return Err(WnnError::FormatError);
        },
    };
    let bits_per_input: usize = match attribute_as_size(header.bits_per_input) {
        Some(n) => n,
        None => {
            return Err(WnnError::FormatError);
        },
    };
    let num_filter_inputs: usize = match attribute_as_size(header.num_filter_inputs) {
        Some(n) => n,
        None => {
            return Err(WnnError::FormatError);
        },
    };
    let num_filter_entries: usize = match attribute_as_size(header.num_filter_entries) {
        Some(n) => n,
        None => {
            return Err(WnnError::FormatError);
        },
    };
    let num_filter_hashes: usize = match attribute_as_size(header.num_filter_hashes) {
        Some(n) => n,
        None => {
            return Err(WnnError::FormatError);
        },
    };
    if header.hash_param < 0 {
        return Err(WnnError::FormatError);
    }
    let hash_param: u64 = header.hash_param as u64;
    let (t0, t1, t2) = thresholds.dim();
    let announced: bool = t2 == bits_per_input && match t0.checked_mul(t1) {
        Some(pixels) => pixels == num_inputs,
        None => false,
    };
    match Wnn::new(
        num_classes,
        num_filter_entries,
        num_filter_hashes,
        num_filter_inputs,
        hash_param,
        bloom_filters,
        input_order,
        thresholds,
    ) {
        Ok(wnn) => {
            if announced {
                Ok(wnn)
            } else {
                Err(WnnError::ShapeError)
            }
        },
        Err(e) => Err(e),
    }
}

} // verus!
