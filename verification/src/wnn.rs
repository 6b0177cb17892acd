//! The model and the classification of an image.
//!
//! A model is checked once, when it is built, and never changes afterwards.
//! Classifying is a function of the model and the image alone: encode the
//! image, permute the bits, cut them into tuples, hash every tuple into its
//! filter of every class, and count for each class the filters in which all
//! addressed bits are set.

use vstd::prelude::*;
use vstd::arithmetic::div_mod::lemma_fundamental_div_mod;
use vstd::arithmetic::mul::lemma_mul_is_commutative;
use crate::encode::{check_nondecreasing, encode, fits, nondecreasing, spec_encode};
use crate::error::WnnError;
use crate::hash::{hash_addresses, lemma_hash_address_bound, pack_tuple, spec_hash_address, tuple_value, MAX_TUPLE_WIDTH};
use crate::permute::{check_permutation, is_permutation, permute, spec_permute};
use crate::tensor::{lemma_offset3_in_range, BitCube, Cube, Grid, IndexRow, PixelGrid, ThresholdCube};

verus! {

/// The scalar parameters lie in their domains: there is a class, filters have
/// entries, tuples have between one and `MAX_TUPLE_WIDTH` bits, and the hash
/// parameter is positive.
pub open spec fn scalars_in_domain(
    num_classes: nat,
    num_filter_entries: nat,
    num_filter_inputs: nat,
    hash_param: nat,
) -> bool {
    &&& num_classes >= 1
    &&& num_filter_entries >= 1
    &&& 1 <= num_filter_inputs <= MAX_TUPLE_WIDTH
    &&& hash_param >= 1
}

/// Mathematical model of a network.
pub struct WnnSpec {
    /// The number of classes.
    pub num_classes: nat,
    /// The number of entries of every Bloom filter.
    pub num_filter_entries: nat,
    /// The number of hash functions applied to every tuple.
    pub num_filter_hashes: nat,
    /// The number of bits of every tuple.
    pub num_filter_inputs: nat,
    /// The parameter of the hash family.
    pub hash_param: nat,
    /// One Bloom filter per class and tuple.
    pub bloom_filters: Cube<bool>,
    /// The order in which feature bits enter the tuples.
    pub input_order: Seq<u64>,
    /// The levels of every pixel, one per bit plane.
    pub thresholds: Cube<u16>,
}

impl WnnSpec {
    /// The side of the square of pixels.
    pub open spec fn width(self) -> nat {
        self.thresholds.d0
    }

    /// The number of bits that encode one pixel.
    pub open spec fn bits_per_input(self) -> nat {
        self.thresholds.d2
    }

    /// The number of pixels.
    pub open spec fn num_inputs(self) -> nat {
        self.thresholds.d0 * self.thresholds.d1
    }

    /// The number of feature bits.
    pub open spec fn num_input_bits(self) -> nat {
        self.thresholds.d0 * self.thresholds.d1 * self.thresholds.d2
    }

    /// The number of tuples, and so of filters per class.
    pub open spec fn num_filters(self) -> nat {
        self.num_input_bits() / self.num_filter_inputs
    }

    /// Every scalar parameter lies in its domain.
    pub open spec fn scalars_valid(self) -> bool {
        scalars_in_domain(
            self.num_classes,
            self.num_filter_entries,
            self.num_filter_inputs,
            self.hash_param,
        )
    }

    /// The tensors agree with the scalars and with each other: the pixels
    /// form a square, the tuples tile the feature bits exactly, there is one
    /// filter per class and tuple, the input order is a permutation of the
    /// feature bits, and the levels of every pixel are in order.
    pub open spec fn shapes_valid(self) -> bool {
        &&& self.thresholds.wf()
        &&& self.bloom_filters.wf()
        &&& self.thresholds.d0 == self.thresholds.d1
        &&& self.num_filters() * self.num_filter_inputs == self.num_input_bits()
        &&& self.bloom_filters.d0 == self.num_classes
        &&& self.bloom_filters.d1 == self.num_filters()
        &&& self.bloom_filters.d2 == self.num_filter_entries
        &&& is_permutation(self.input_order, self.num_input_bits())
        &&& nondecreasing(self.thresholds)
    }

    /// What every network satisfies from the moment it is built.
    pub open spec fn valid(self) -> bool {
        self.scalars_valid() && self.shapes_valid()
    }

    /// The feature bits of an image in the order in which they enter the
    /// tuples.
    pub open spec fn permuted_bits(self, image: Grid<u8>) -> Seq<bool> {
        spec_permute(spec_encode(self.thresholds, image), self.input_order)
    }

    /// Tuple number `f` of a sequence of permuted bits.
    pub open spec fn tuple(self, permuted: Seq<bool>, f: int) -> Seq<bool> {
        permuted.subrange(f * self.num_filter_inputs, f * self.num_filter_inputs + self.num_filter_inputs)
    }

    /// The address that hash function `j` gives tuple number `f`.
    pub open spec fn address(self, permuted: Seq<bool>, f: int, j: int) -> nat {
        spec_hash_address(
            tuple_value(self.tuple(permuted, f)),
            j as nat,
            self.hash_param,
            self.num_filter_entries,
        )
    }

    /// Filter `f` of class `c` responds: the bit at every address of tuple
    /// `f` is set.
    pub open spec fn filter_active(self, permuted: Seq<bool>, c: int, f: int) -> bool {
        forall|j: int|
            0 <= j < self.num_filter_hashes ==> self.bloom_filters.at(
                c,
                f,
                #[trigger] self.address(permuted, f, j) as int,
            )
    }

    /// The number of responding filters of class `c` among the first `n`.
    pub open spec fn active_count(self, permuted: Seq<bool>, c: int, n: nat) -> nat
        decreases n,
    {
        if n == 0 {
            0
        } else {
            self.active_count(permuted, c, (n - 1) as nat) + if self.filter_active(
                permuted,
                c,
                n - 1,
            ) {
                1nat
            } else {
                0nat
            }
        }
    }

    /// The vote of class `c` on an image.
    pub open spec fn vote(self, image: Grid<u8>, c: int) -> nat {
        self.active_count(self.permuted_bits(image), c, self.num_filters())
    }

    /// The votes of all classes on an image.
    pub open spec fn votes(self, image: Grid<u8>) -> Seq<nat> {
        Seq::new(self.num_classes, |c: int| self.vote(image, c))
    }
}

/// The model that `Wnn::new` is asked to build.
pub open spec fn spec_new(
    num_classes: nat,
    num_filter_entries: nat,
    num_filter_hashes: nat,
    num_filter_inputs: nat,
    hash_param: nat,
    bloom_filters: Cube<bool>,
    input_order: Seq<u64>,
    thresholds: Cube<u16>,
) -> WnnSpec {
    WnnSpec {
        num_classes,
        num_filter_entries,
        num_filter_hashes,
        num_filter_inputs,
        hash_param,
        bloom_filters,
        input_order,
        thresholds,
    }
}

/// Votes as numbers without a machine width.
pub open spec fn counts(votes: Seq<usize>) -> Seq<nat> {
    Seq::new(votes.len(), |i: int| votes[i] as nat)
}

/// `k` is the first index at which `votes` is largest.
pub open spec fn is_argmax(votes: Seq<nat>, k: int) -> bool {
    &&& 0 <= k < votes.len()
    &&& forall|i: int| 0 <= i < votes.len() ==> votes[i] <= votes[k]
    &&& forall|i: int| 0 <= i < k ==> votes[i] < votes[k]
}

/// The winner is determined by the votes.
pub proof fn lemma_argmax_unique(votes: Seq<nat>, a: int, b: int)
    requires
        is_argmax(votes, a),
        is_argmax(votes, b),
    ensures
        a == b,
{
    if a < b {
        assert(votes[a] < votes[b]);
    } else if b < a {
        assert(votes[b] < votes[a]);
    }
}

/// No class gets more votes than there are filters.
pub proof fn lemma_active_count_bound(m: WnnSpec, permuted: Seq<bool>, c: int, n: nat)
    ensures
        m.active_count(permuted, c, n) <= n,
    decreases n,
{
    if n > 0 {
        lemma_active_count_bound(m, permuted, c, (n - 1) as nat);
    }
}

/// With every bit of every filter set, the first `n` filters of a class all
/// respond.
proof fn lemma_full_filters_count(m: WnnSpec, permuted: Seq<bool>, c: int, n: nat)
    requires
        m.valid(),
        forall|i: int| 0 <= i < m.bloom_filters.cells.len() ==> m.bloom_filters.cells[i],
        0 <= c < m.num_classes,
        n <= m.num_filters(),
    ensures
        m.active_count(permuted, c, n) == n,
    decreases n,
{
    if n > 0 {
        lemma_full_filters_count(m, permuted, c, (n - 1) as nat);
        let f = n - 1;
        assert forall|j: int| 0 <= j < m.num_filter_hashes implies m.bloom_filters.at(
            c,
            f,
            #[trigger] m.address(permuted, f, j) as int,
        ) by {
            let a = m.address(permuted, f, j);
            lemma_hash_address_bound(
                tuple_value(m.tuple(permuted, f)),
                j as nat,
                m.hash_param,
                m.num_filter_entries,
            );
            lemma_offset3_in_range(
                m.bloom_filters.d0,
                m.bloom_filters.d1,
                m.bloom_filters.d2,
                c,
                f,
                a as int,
            );
        }
    }
}

/// With no bit of any filter set and at least one hash function, none of the
/// first `n` filters of a class responds.
proof fn lemma_empty_filters_count(m: WnnSpec, permuted: Seq<bool>, c: int, n: nat)
    requires
        m.valid(),
        m.num_filter_hashes >= 1,
        forall|i: int| 0 <= i < m.bloom_filters.cells.len() ==> !m.bloom_filters.cells[i],
        0 <= c < m.num_classes,
        n <= m.num_filters(),
    ensures
        m.active_count(permuted, c, n) == 0,
    decreases n,
{
    if n > 0 {
        lemma_empty_filters_count(m, permuted, c, (n - 1) as nat);
        let f = n - 1;
        let a = m.address(permuted, f, 0);
        lemma_hash_address_bound(
            tuple_value(m.tuple(permuted, f)),
            0,
            m.hash_param,
            m.num_filter_entries,
        );
        lemma_offset3_in_range(
            m.bloom_filters.d0,
            m.bloom_filters.d1,
            m.bloom_filters.d2,
            c,
            f,
            a as int,
        );
        assert(!m.bloom_filters.at(c, f, a as int));
        assert(!m.filter_active(permuted, c, f));
    }
}

/// Full filters: when every bit of every Bloom filter is set, every class
/// gets the vote of every filter, whatever the image.
pub proof fn lemma_full_filters_all_vote(m: WnnSpec, image: Grid<u8>)
    requires
        m.valid(),
        forall|i: int| 0 <= i < m.bloom_filters.cells.len() ==> m.bloom_filters.cells[i],
    ensures
        m.votes(image).len() == m.num_classes,
        forall|c: int| 0 <= c < m.num_classes ==> m.votes(image)[c] == m.num_filters(),
{
    assert forall|c: int| 0 <= c < m.num_classes implies m.votes(image)[c] == m.num_filters() by {
        lemma_full_filters_count(m, m.permuted_bits(image), c, m.num_filters());
    }
}

/// Empty filters: when no bit of any Bloom filter is set and the model uses
/// at least one hash function, no class gets a vote, whatever the image, and
/// the first class is the one predicted.
pub proof fn lemma_empty_filters_none_vote(m: WnnSpec, image: Grid<u8>)
    requires
        m.valid(),
        m.num_filter_hashes >= 1,
        forall|i: int| 0 <= i < m.bloom_filters.cells.len() ==> !m.bloom_filters.cells[i],
    ensures
        m.votes(image).len() == m.num_classes,
        forall|c: int| 0 <= c < m.num_classes ==> m.votes(image)[c] == 0,
        is_argmax(m.votes(image), 0),
        forall|k: int| is_argmax(m.votes(image), k) ==> k == 0,
{
    assert forall|c: int| 0 <= c < m.num_classes implies m.votes(image)[c] == 0 by {
        lemma_empty_filters_count(m, m.permuted_bits(image), c, m.num_filters());
    }
    assert(is_argmax(m.votes(image), 0));
    assert forall|k: int| is_argmax(m.votes(image), k) implies k == 0 by {
        lemma_argmax_unique(m.votes(image), k, 0);
    }
}

/// The first index at which `votes` is largest.
pub fn argmax(votes: &Vec<usize>) -> (best: usize)
    requires
        votes.len() > 0,
    ensures
        is_argmax(counts(votes@), best as int),
{
    let mut best: usize = 0;
    let mut i: usize = 1;
    while i < votes.len()
        invariant
            1 <= i <= votes.len(),
            best < i,
            forall|k: int| 0 <= k < i ==> votes[k] <= votes[best as int],
            forall|k: int| 0 <= k < best ==> votes[k] < votes[best as int],
        decreases votes.len() - i,
    {
        if votes[i] > votes[best] {
            best = i;
        }
        i = i + 1;
    }
    best
}

/// Decides whether filter `f` of class `c` responds to a tuple with the
/// given addresses: whether the bit at every address is set.
pub fn filter_responds(bloom_filters: &BitCube, c: usize, f: usize, addresses: &Vec<usize>) -> (active: bool)
    requires
        c < bloom_filters@.d0,
        f < bloom_filters@.d1,
        forall|j: int| 0 <= j < addresses.len() ==> addresses[j] < bloom_filters@.d2,
    ensures
        active == (forall|j: int|
            0 <= j < addresses.len() ==> bloom_filters@.at(
                c as int,
                f as int,
                #[trigger] addresses[j] as int,
            )),
{
    let mut j: usize = 0;
    while j < addresses.len()
        invariant
            j <= addresses.len(),
            c < bloom_filters@.d0,
            f < bloom_filters@.d1,
            forall|i: int| 0 <= i < addresses.len() ==> addresses[i] < bloom_filters@.d2,
            forall|i: int|
                0 <= i < j ==> bloom_filters@.at(c as int, f as int, #[trigger] addresses[i] as int),
        decreases addresses.len() - j,
    {
        if !bloom_filters.get(c, f, addresses[j]) {
            assert(!bloom_filters@.at(c as int, f as int, addresses[j as int] as int));
            return false;
        }
        j = j + 1;
    }
    true
}

/// A vector of `n` zeros.
fn zeros(n: usize) -> (v: Vec<usize>)
    ensures
        v.len() == n,
        forall|i: int| 0 <= i < n ==> v[i] == 0,
{
    let mut v: Vec<usize> = Vec::new();
    let mut i: usize = 0;
    while i < n
        invariant
            i <= n,
            v.len() == i,
            forall|k: int| 0 <= k < i ==> v[k] == 0,
        decreases n - i,
    {
        v.push(0);
        i = i + 1;
    }
    v
}

/// A weightless neural network: a bank of Bloom filters per class, the
/// levels that binarise an image, and the order in which the bits are
/// grouped into tuples.
#[derive(Debug)]
pub struct Wnn {
    num_classes: usize,
    num_filter_entries: usize,
    num_filter_hashes: usize,
    num_filter_inputs: usize,
    hash_param: u64,
    num_filters: usize,
    bloom_filters: BitCube,
    input_order: IndexRow,
    thresholds: ThresholdCube,
}

impl View for Wnn {
    type V = WnnSpec;

    closed spec fn view(&self) -> WnnSpec {
        WnnSpec {
            num_classes: self.num_classes as nat,
            num_filter_entries: self.num_filter_entries as nat,
            num_filter_hashes: self.num_filter_hashes as nat,
            num_filter_inputs: self.num_filter_inputs as nat,
            hash_param: self.hash_param as nat,
            bloom_filters: self.bloom_filters@,
            input_order: self.input_order@,
            thresholds: self.thresholds@,
        }
    }
}

impl Wnn {
    /// Every network is valid, and knows its number of filters.
    #[verifier::type_invariant]
    spec fn inv(self) -> bool {
        self@.valid() && self.num_filters == self@.num_filters()
    }

    /// Builds a network, or says why the parts do not make one.
    ///
    /// `FormatError` reports a scalar outside its domain; `ShapeError`
    /// reports tensors that disagree with the scalars or with each other.
    pub fn new(
        num_classes: usize,
        num_filter_entries: usize,
        num_filter_hashes: usize,
        num_filter_inputs: usize,
        hash_param: u64,
        bloom_filters: BitCube,
        input_order: IndexRow,
        thresholds: ThresholdCube,
    ) -> (r: Result<Wnn, WnnError>)
        ensures
            r is Ok <==> spec_new(
                num_classes as nat,
                num_filter_entries as nat,
                num_filter_hashes as nat,
                num_filter_inputs as nat,
                hash_param as nat,
                bloom_filters@,
                input_order@,
                thresholds@,
            ).valid(),
            r matches Ok(wnn) ==> wnn@ == spec_new(
                num_classes as nat,
                num_filter_entries as nat,
                num_filter_hashes as nat,
                num_filter_inputs as nat,
                hash_param as nat,
                bloom_filters@,
                input_order@,
                thresholds@,
            ),
            r matches Err(e) ==> e == (if spec_new(
                num_classes as nat,
                num_filter_entries as nat,
                num_filter_hashes as nat,
                num_filter_inputs as nat,
                hash_param as nat,
                bloom_filters@,
                input_order@,
                thresholds@,
            ).scalars_valid() {
                WnnError::ShapeError
            } else {
                WnnError::FormatError
            }),
    {
        let ghost m = spec_new(
            num_classes as nat,
            num_filter_entries as nat,
            num_filter_hashes as nat,
            num_filter_inputs as nat,
            hash_param as nat,
            bloom_filters@,
            input_order@,
            thresholds@,
        );
        if num_classes == 0 || num_filter_entries == 0 || num_filter_inputs == 0
            || num_filter_inputs > MAX_TUPLE_WIDTH || hash_param == 0 {
            return Err(WnnError::FormatError);
        }
        let (t0, t1, t2) = thresholds.dim();
        let (b0, b1, b2) = bloom_filters.dim();
        let listed: usize = input_order.len();
        if t0 != t1 {
            return Err(WnnError::ShapeError);
        }
        let mut total: usize = 0;
        if t2 != 0 {
            let pixels: usize = match t0.checked_mul(t1) {
                Some(p) => p,
                None => {
                    assert(m.num_input_bits() > usize::MAX) by (nonlinear_arith)
                        requires
                            m.num_input_bits() == t0 * t1 * t2,
                            t0 * t1 > usize::MAX,
                            t2 >= 1,
                    ;
                    return Err(WnnError::ShapeError);
                },
            };
            total = match pixels.checked_mul(t2) {
                Some(t) => t,
                None => {
                    return Err(WnnError::ShapeError);
                },
            };
        } else {
            assert(t0 * t1 * t2 == 0) by (nonlinear_arith)
                requires
                    t2 == 0,
            ;
        }
        assert(total == m.num_input_bits());
        if listed != total {
            return Err(WnnError::ShapeError);
        }
        let num_filters: usize = total / num_filter_inputs;
        proof {
            lemma_fundamental_div_mod(total as int, num_filter_inputs as int);
            lemma_mul_is_commutative(num_filter_inputs as int, total as int / num_filter_inputs as int);
        }
        if total % num_filter_inputs != 0 {
            return Err(WnnError::ShapeError);
        }
        if b0 != num_classes || b1 != num_filters || b2 != num_filter_entries {
            return Err(WnnError::ShapeError);
        }
        if !check_permutation(&input_order, total) {
            return Err(WnnError::ShapeError);
        }
        if !check_nondecreasing(&thresholds) {
            return Err(WnnError::ShapeError);
        }
        Ok(
            Wnn {
                num_classes,
                num_filter_entries,
                num_filter_hashes,
                num_filter_inputs,
                hash_param,
                num_filters,
                bloom_filters,
                input_order,
                thresholds,
            },
        )
    }

    /// The number of classes.
    pub fn num_classes(&self) -> (n: usize)
        ensures
            n == self@.num_classes,
    {
        self.num_classes
    }

    /// The number of filters per class.
    pub fn num_filters(&self) -> (n: usize)
        ensures
            n == self@.num_filters(),
    {
        proof {
            use_type_invariant(self);
        }
        self.num_filters
    }

    /// The side of the square of pixels that the network classifies.
    pub fn width(&self) -> (w: usize)
        ensures
            w == self@.width(),
    {
        self.thresholds.dim().0
    }

    /// The votes of all classes on an image.
    ///
    /// Fails with `ShapeMismatch` when the image is not the square of pixels
    /// that the network was trained on.
    #[verifier::loop_isolation(false)]
    pub fn votes(&self, image: &PixelGrid) -> (r: Result<Vec<usize>, WnnError>)
        ensures
            self@.valid(),
            r is Ok <==> fits(self@.thresholds, image@),
            r matches Ok(votes) ==> counts(votes@) == self@.votes(image@) && forall|c: int|
                0 <= c < votes.len() ==> votes[c] <= self@.num_filters(),
            r matches Err(e) ==> e == WnnError::ShapeMismatch,
    {
        proof {
            use_type_invariant(self);
        }
        let ghost m = self@;
        let bits: Vec<bool> = match encode(&self.thresholds, image) {
            Ok(bits) => bits,
            Err(_) => {
                return Err(WnnError::ShapeMismatch);
            },
        };
        let permuted: Vec<bool> = permute(&bits, &self.input_order);
        let ghost p = permuted@;
        let width: usize = self.num_filter_inputs;
        let mut votes: Vec<usize> = zeros(self.num_classes);
        let mut f: usize = 0;
        while f < self.num_filters
            invariant
                f <= self.num_filters,
                votes.len() == self.num_classes,
                forall|c: int|
                    0 <= c < self.num_classes ==> votes[c] == m.active_count(p, c, f as nat),
            decreases self.num_filters - f,
        {
            assert(f * width + width <= permuted.len()) by (nonlinear_arith)
                requires
                    f < self.num_filters,
                    self.num_filters * width == permuted.len(),
            ;
            let value: u64 = pack_tuple(&permuted, f * width, width);
            let addresses: Vec<usize> = hash_addresses(
                value,
                self.num_filter_hashes,
                self.hash_param,
                self.num_filter_entries,
            );
            assert forall|j: int| 0 <= j < self.num_filter_hashes implies addresses[j] == m.address(
                p,
                f as int,
                j,
            ) by {}
            let mut c: usize = 0;
            while c < self.num_classes
                invariant
                    c <= self.num_classes,
                    votes.len() == self.num_classes,
                    forall|k: int| 0 <= k < c ==> votes[k] == m.active_count(p, k, (f + 1) as nat),
                    forall|k: int|
                        c <= k < self.num_classes ==> votes[k] == m.active_count(p, k, f as nat),
                decreases self.num_classes - c,
            {
                let active: bool = filter_responds(&self.bloom_filters, c, f, &addresses);
                proof {
                    if active {
                        assert forall|j: int| 0 <= j < m.num_filter_hashes implies m.bloom_filters.at(
                            c as int,
                            f as int,
                            #[trigger] m.address(p, f as int, j) as int,
                        ) by {
                            assert(m.bloom_filters.at(c as int, f as int, addresses[j] as int));
                        }
                    } else {
                        if m.filter_active(p, c as int, f as int) {
                            assert forall|j: int| 0 <= j < addresses.len() implies m.bloom_filters.at(
                                c as int,
                                f as int,
                                #[trigger] addresses[j] as int,
                            ) by {
                                assert(m.bloom_filters.at(
                                    c as int,
                                    f as int,
                                    m.address(p, f as int, j) as int,
                                ));
                            }
                        }
                    }
                    lemma_active_count_bound(m, p, c as int, f as nat);
                }
                if active {
                    votes.set(c, votes[c] + 1);
                }
                c = c + 1;
            }
            f = f + 1;
        }
        assert(counts(votes@) =~= m.votes(image@));
        assert forall|c: int| 0 <= c < votes.len() implies votes[c] <= m.num_filters() by {
            lemma_active_count_bound(m, p, c, m.num_filters());
        }
        Ok(votes)
    }

    /// Classifies an image: the predicted class, and the votes of all
    /// classes. The predicted class is the first among those with the most
    /// votes.
    ///
    /// Fails with `ShapeMismatch` when the image is not the square of pixels
    /// that the network was trained on.
    pub fn classify(&self, image: &PixelGrid) -> (r: Result<(usize, Vec<usize>), WnnError>)
        ensures
            self@.valid(),
            r is Ok <==> fits(self@.thresholds, image@),
            r matches Ok(prediction) ==> counts(prediction.1@) == self@.votes(image@) && is_argmax(
                self@.votes(image@),
                prediction.0 as int,
            ) && forall|c: int|
                0 <= c < prediction.1.len() ==> prediction.1[c] <= self@.num_filters(),
            r matches Err(e) ==> e == WnnError::ShapeMismatch,
    {
        match self.votes(image) {
            Ok(votes) => {
                assert(counts(votes@).len() == self@.num_classes);
                let class: usize = argmax(&votes);
                Ok((class, votes))
            },
            Err(e) => Err(e),
        }
    }
}

} // verus!
