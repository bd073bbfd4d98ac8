//! Configuration and the hasher that turns images into fingerprints.

use crate::algorithm::HashAlg;
use crate::error::HashError;
use crate::fingerprint::Fingerprint;
use crate::grid::{GridView, SampleGrid};
use crate::distance::{distance_of, lemma_distance_to_self};
use crate::resize::{resizable, resize, resize_is_fixed, resized, FilterType, MAX_DIMENSION};
use vstd::prelude::*;

verus! {

/// The content of a configuration.
pub struct ConfigView {
    pub hash_width: nat,
    pub hash_height: nat,
    pub resize_filter: FilterType,
    pub hash_alg: HashAlg,
}

impl ConfigView {
    /// The number of bits of the fingerprints made with this configuration.
    pub open spec fn bit_count(self) -> nat {
        self.hash_alg.bit_count(self.hash_width, self.hash_height)
    }

    /// The width of the grid that the algorithm works on, for a source
    /// `source_width` samples wide.
    pub open spec fn grid_width(self, source_width: nat) -> nat {
        self.hash_alg.grid_width(self.hash_width, source_width)
    }

    /// The height of the grid that the algorithm works on, for a source
    /// `source_height` samples high.
    pub open spec fn grid_height(self, source_height: nat) -> nat {
        self.hash_alg.grid_height(self.hash_height, source_height)
    }

    /// Neither hash dimension is zero.
    pub open spec fn has_dimensions(self) -> bool {
        self.hash_width > 0 && self.hash_height > 0
    }

    /// The algorithm can be given its grid: the smallest grid that it works
    /// on is within `MAX_DIMENSION` on both sides, and the number of bits
    /// fits the machine's lengths.
    pub open spec fn has_shape(self) -> bool {
        &&& self.grid_width(1) <= MAX_DIMENSION
        &&& self.grid_height(1) <= MAX_DIMENSION
        &&& self.bit_count() <= usize::MAX
    }

    /// What holds of every configuration.
    pub open spec fn valid(self) -> bool {
        self.has_dimensions() && self.has_shape()
    }
}

/// Whether the fingerprint of `image` under `c` is fixed by the two: the image
/// already has the size of the algorithm's grid, or the filter is an exact
/// kernel.
pub open spec fn hash_is_fixed(c: ConfigView, image: GridView) -> bool {
    resize_is_fixed(
        image,
        c.grid_width(image.width),
        c.grid_height(image.height),
        c.resize_filter,
    )
}

/// Where the fingerprint of `image` under `c` is fixed, the grid that the
/// algorithm works on: the image resized to the algorithm's size, or the
/// image itself where it has that size already.
pub open spec fn hash_grid_of(c: ConfigView, image: GridView) -> GridView {
    resized(image, c.grid_width(image.width), c.grid_height(image.height), c.resize_filter)
}

/// Where the fingerprint of `image` under `c` is fixed, its bits: those that
/// the algorithm draws from the resized image.
pub open spec fn hash_bits(c: ConfigView, image: GridView) -> Seq<bool> {
    c.hash_alg.bits(hash_grid_of(c, image), c.hash_width, c.hash_height)
}

/// Whether `bits` are what the algorithm of `c` draws from the grid `g`, a
/// well-formed grid of the size that the algorithm works on for `image`.
pub open spec fn drawn_from(c: ConfigView, image: GridView, g: GridView, bits: Seq<bool>) -> bool {
    &&& g.wf()
    &&& g.has_shape(c.grid_width(image.width), c.grid_height(image.height))
    &&& bits == c.hash_alg.bits(g, c.hash_width, c.hash_height)
}

/// Whether `bits` can be the fingerprint of `image` under `c`. They are
/// always the algorithm's bits for some grid of the algorithm's size. Where
/// the fingerprint is fixed, they are `hash_bits`; where it is not, because
/// the image is resampled with a kernel whose arithmetic depends on the
/// platform, no more is said of the grid.
pub open spec fn hashes_to(c: ConfigView, image: GridView, bits: Seq<bool>) -> bool {
    &&& hash_is_fixed(c, image) ==> bits == hash_bits(c, image)
    &&& exists|g: GridView| #[trigger] drawn_from(c, image, g, bits)
}

/// Under a valid configuration every fingerprint of an image has the number
/// of bits that the hash size and the algorithm give.
pub proof fn lemma_hash_bit_count(c: ConfigView, image: GridView, bits: Seq<bool>)
    requires
        c.valid(),
        hashes_to(c, image, bits),
    ensures
        bits.len() == c.bit_count(),
{
    let g = choose|g: GridView| #[trigger] drawn_from(c, image, g, bits);
    c.hash_alg.lemma_grid_shape_accepted(g, c.hash_width, c.hash_height, image.width, image.height);
    c.hash_alg.lemma_bits_len(g, c.hash_width, c.hash_height);
}

/// An image that already has the size of the algorithm's grid is hashed as
/// it is, whatever the filter.
pub proof fn lemma_hash_without_resizing(c: ConfigView, image: GridView, bits: Seq<bool>)
    requires
        image.has_shape(c.grid_width(image.width), c.grid_height(image.height)),
        hashes_to(c, image, bits),
    ensures
        bits == c.hash_alg.bits(image, c.hash_width, c.hash_height),
{
}

/// Two images with the same samples have fingerprints at distance zero under
/// one configuration, where the fingerprint is fixed: with `Nearest` or
/// `Triangle`, or for images that already have the size of the algorithm's
/// grid.
pub proof fn lemma_identical_images_at_distance_zero(
    c: ConfigView,
    a: GridView,
    b: GridView,
    bits_a: Seq<bool>,
    bits_b: Seq<bool>,
)
    requires
        a == b,
        hash_is_fixed(c, a),
        hashes_to(c, a, bits_a),
        hashes_to(c, b, bits_b),
    ensures
        bits_a == bits_b,
        distance_of(bits_a, bits_b) == Ok::<nat, HashError>(0),
{
    lemma_distance_to_self(bits_a);
}

/// The choices that fix how images are hashed: the size of the hash in cells,
/// the kernel used to resample, and the algorithm that draws the bits. A
/// configuration is checked when it is built and never changes.
#[derive(Clone, Copy, Debug)]
pub struct HasherConfig {
    hash_width: u32,
    hash_height: u32,
    resize_filter: FilterType,
    hash_alg: HashAlg,
}

impl View for HasherConfig {
    type V = ConfigView;

    closed spec fn view(&self) -> ConfigView {
        ConfigView {
            hash_width: self.hash_width as nat,
            hash_height: self.hash_height as nat,
            resize_filter: self.resize_filter,
            hash_alg: self.hash_alg,
        }
    }
}

/// What building a configuration from these four choices gives.
pub open spec fn checked(
    hash_width: u32,
    hash_height: u32,
    resize_filter: FilterType,
    hash_alg: HashAlg,
) -> Result<ConfigView, HashError> {
    let c = ConfigView {
        hash_width: hash_width as nat,
        hash_height: hash_height as nat,
        resize_filter,
        hash_alg,
    };
    if !c.has_dimensions() {
        Err(HashError::InvalidDimension)
    } else if !c.has_shape() {
        Err(HashError::InvalidConfiguration)
    } else {
        Ok(c)
    }
}

impl HasherConfig {
    /// What holds of every configuration: it is valid.
    #[verifier::type_invariant]
    pub open spec fn well_formed(&self) -> bool {
        self@.valid()
    }

    /// Builds a configuration. A zero hash dimension is refused as an invalid
    /// dimension; a hash size for which the algorithm cannot be given its
    /// grid is refused as an invalid configuration.
    pub fn new(
        hash_width: u32,
        hash_height: u32,
        resize_filter: FilterType,
        hash_alg: HashAlg,
    ) -> (r: Result<HasherConfig, HashError>)
        ensures
            match r {
                Ok(c) => checked(hash_width, hash_height, resize_filter, hash_alg) == Ok::<
                    ConfigView,
                    HashError,
                >(c@),
                Err(e) => checked(hash_width, hash_height, resize_filter, hash_alg) == Err::<
                    ConfigView,
                    HashError,
                >(e),
            },
    {
        if hash_width == 0 || hash_height == 0 {
            return Err(HashError::InvalidDimension);
        }
        let widest: u32 = match hash_alg {
            HashAlg::Gradient | HashAlg::DoubleGradient => MAX_DIMENSION - 1,
            _ => MAX_DIMENSION,
        };
        let highest: u32 = match hash_alg {
            HashAlg::VertGradient | HashAlg::DoubleGradient => MAX_DIMENSION - 1,
            _ => MAX_DIMENSION,
        };
        if hash_width > widest || hash_height > highest {
            return Err(HashError::InvalidConfiguration);
        }
        assert(hash_width * hash_height <= 2_097_152 * 2_097_152) by (nonlinear_arith)
            requires
                0 <= hash_width <= 2_097_152,
                0 <= hash_height <= 2_097_152,
        ;
        let cells: u64 = (hash_width as u64) * (hash_height as u64);
        let bit_count: u64 = match hash_alg {
            HashAlg::DoubleGradient => 2 * cells,
            _ => cells,
        };
        if bit_count > usize::MAX as u64 {
            return Err(HashError::InvalidConfiguration);
        }
        Ok(HasherConfig { hash_width, hash_height, resize_filter, hash_alg })
    }

    /// The same configuration with another hash size.
    pub fn with_hash_size(&self, hash_width: u32, hash_height: u32) -> (r: Result<
        HasherConfig,
        HashError,
    >)
        ensures
            match r {
                Ok(c) => checked(hash_width, hash_height, self@.resize_filter, self@.hash_alg)
                    == Ok::<ConfigView, HashError>(c@),
                Err(e) => checked(hash_width, hash_height, self@.resize_filter, self@.hash_alg)
                    == Err::<ConfigView, HashError>(e),
            },
    {
        HasherConfig::new(hash_width, hash_height, self.resize_filter, self.hash_alg)
    }

    /// The same configuration with another resize filter.
    pub fn with_resize_filter(&self, resize_filter: FilterType) -> (c: HasherConfig)
        ensures
            c@ == (ConfigView { resize_filter, ..self@ }),
    {
        proof {
            use_type_invariant(self);
        }
        HasherConfig {
            hash_width: self.hash_width,
            hash_height: self.hash_height,
            resize_filter,
            hash_alg: self.hash_alg,
        }
    }

    /// The same configuration with another algorithm.
    pub fn with_hash_alg(&self, hash_alg: HashAlg) -> (r: Result<HasherConfig, HashError>)
        ensures
            match r {
                Ok(c) => c@ == (ConfigView { hash_alg, ..self@ }) && c@.valid(),
                Err(e) => e == HashError::InvalidConfiguration && !(ConfigView {
                    hash_alg,
                    ..self@
                }).valid(),
            },
    {
        proof {
            use_type_invariant(self);
        }
        HasherConfig::new(self.hash_width, self.hash_height, self.resize_filter, hash_alg)
    }

    /// The width of the hash, in cells.
    pub fn hash_width(&self) -> (w: u32)
        ensures
            w == self@.hash_width,
    {
        self.hash_width
    }

    /// The height of the hash, in cells.
    pub fn hash_height(&self) -> (h: u32)
        ensures
            h == self@.hash_height,
    {
        self.hash_height
    }

    /// The kernel used to resample.
    pub fn resize_filter(&self) -> (f: FilterType)
        ensures
            f == self@.resize_filter,
    {
        self.resize_filter
    }

    /// The algorithm that draws the bits.
    pub fn hash_alg(&self) -> (a: HashAlg)
        ensures
            a == self@.hash_alg,
    {
        self.hash_alg
    }

    /// The hasher that works with this configuration.
    pub fn to_hasher(&self) -> (h: Hasher)
        ensures
            h@ == self@,
    {
        proof {
            use_type_invariant(self);
        }
        Hasher { config: *self }
    }
}

impl Default for HasherConfig {
    /// A hash of 8 by 8 cells, resampled with `Lanczos3`, drawn by
    /// `Gradient`.
    fn default() -> (c: HasherConfig)
        ensures
            c@ == (ConfigView {
                hash_width: 8,
                hash_height: 8,
                resize_filter: FilterType::Lanczos3,
                hash_alg: HashAlg::Gradient,
            }),
    {
        assert(8 * 8 == 64) by (nonlinear_arith);
        HasherConfig {
            hash_width: 8,
            hash_height: 8,
            resize_filter: FilterType::Lanczos3,
            hash_alg: HashAlg::Gradient,
        }
    }
}

/// Hashes images with one configuration. It keeps nothing between calls.
#[derive(Clone, Copy, Debug)]
pub struct Hasher {
    config: HasherConfig,
}

impl View for Hasher {
    type V = ConfigView;

    closed spec fn view(&self) -> ConfigView {
        self.config@
    }
}

impl Hasher {
    /// What holds of every hasher: its configuration is valid.
    #[verifier::type_invariant]
    pub open spec fn well_formed(&self) -> bool {
        self@.valid()
    }

    /// The hasher that works with `config`.
    pub fn new(config: HasherConfig) -> (h: Hasher)
        ensures
            h@ == config@,
    {
        proof {
            use_type_invariant(&config);
        }
        Hasher { config }
    }

    /// The configuration.
    pub fn config(&self) -> (c: HasherConfig)
        ensures
            c@ == self@,
    {
        self.config
    }

    /// The size of the grid that the algorithm works on, for a source of
    /// `source_width` by `source_height` samples.
    pub fn grid_size(&self, source_width: u32, source_height: u32) -> (size: (u32, u32))
        ensures
            size.0 == self@.grid_width(source_width as nat),
            size.1 == self@.grid_height(source_height as nat),
            size.0 > 0,
            size.1 > 0,
    {
        proof {
            use_type_invariant(self);
            use_type_invariant(&self.config);
        }
        let hw = self.config.hash_width;
        let hh = self.config.hash_height;
        let width = match self.config.hash_alg {
            HashAlg::Mean | HashAlg::VertGradient => hw,
            HashAlg::Gradient | HashAlg::DoubleGradient => hw + 1,
            HashAlg::Blockhash => block_multiple(hw, source_width),
        };
        let height = match self.config.hash_alg {
            HashAlg::Mean | HashAlg::Gradient => hh,
            HashAlg::VertGradient | HashAlg::DoubleGradient => hh + 1,
            HashAlg::Blockhash => block_multiple(hh, source_height),
        };
        (width, height)
    }

    /// The fingerprint of a grid that already has the shape that the
    /// algorithm works on: the algorithm's bits, packed. A grid of another
    /// shape is refused.
    pub fn hash_grid(&self, grid: &SampleGrid) -> (r: Result<Fingerprint, HashError>)
        ensures
            r is Ok <==> self@.hash_alg.accepts(grid@, self@.hash_width, self@.hash_height),
            r matches Err(e) ==> e == HashError::InvalidConfiguration,
            r matches Ok(fp) ==> fp@ == self@.hash_alg.bits(
                grid@,
                self@.hash_width,
                self@.hash_height,
            ) && fp@.len() == self@.bit_count(),
    {
        match self.config.hash_alg.compute(grid, self.config.hash_width, self.config.hash_height) {
            Ok(bits) => Ok(Fingerprint::from_bits(&bits)),
            Err(e) => Err(e),
        }
    }

    /// The fingerprint of `image`: the image is resized to the grid that the
    /// algorithm works on, the algorithm draws its bits from that grid, and
    /// the bits are packed. With `Nearest` or `Triangle` the bits are fixed by
    /// the image, as `hash_bits`; with the other kernels they are the
    /// algorithm's bits for a grid whose samples depend on the platform's
    /// arithmetic.
    ///
    /// An image that already has the grid's size is hashed as it is. The
    /// only images refused are those that `resize` cannot bring to the grid's
    /// size: those with a side beyond `MAX_DIMENSION`, and those that the
    /// machine cannot hold while they are resampled.
    pub fn hash(&self, image: &SampleGrid) -> (r: Result<Fingerprint, HashError>)
        ensures
            r is Ok <==> resizable(
                image@,
                self@.grid_width(image@.width),
                self@.grid_height(image@.height),
            ),
            r matches Err(e) ==> e == HashError::InvalidDimension,
            r matches Ok(fp) ==> fp@.len() == self@.bit_count() && hashes_to(self@, image@, fp@),
    {
        proof {
            use_type_invariant(self);
            use_type_invariant(image);
        }
        let (width, height) = self.grid_size(image.width(), image.height());
        match resize(image, width, height, self.config.resize_filter) {
            Ok(grid) => {
                proof {
                    self@.hash_alg.lemma_grid_shape_accepted(
                        grid@,
                        self@.hash_width,
                        self@.hash_height,
                        image@.width,
                        image@.height,
                    );
                }
                let r = self.hash_grid(&grid);
                proof {
                    if r is Ok {
                        assert(drawn_from(self@, image@, grid@, r.unwrap()@));
                    }
                }
                r
            },
            Err(e) => Err(e),
        }
    }
}

/// The largest multiple of `cells` that is at most `samples`, or `cells`
/// itself where `samples` is less.
fn block_multiple(cells: u32, samples: u32) -> (m: u32)
    requires
        cells > 0,
    ensures
        m == (if samples < cells {
            cells as nat
        } else {
            ((samples as nat) / (cells as nat)) * (cells as nat)
        }),
        m > 0,
{
    if samples < cells {
        cells
    } else {
        proof {
            vstd::arithmetic::div_mod::lemma_fundamental_div_mod(samples as int, cells as int);
            assert((samples / cells) * cells == cells * (samples / cells)) by (nonlinear_arith);
            assert(samples / cells >= 1 && (samples / cells) * cells >= 1) by (nonlinear_arith)
                requires
                    samples >= cells,
                    cells > 0,
                    samples == cells * (samples / cells) + samples % cells,
                    0 <= samples % cells < cells,
            ;
        }
        (samples / cells) * cells
    }
}

} // verus!
