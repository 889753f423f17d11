use vstd::prelude::*;

verus! {

/// Number of fixture files in the default population.
pub const DEFAULT_NUM_FILES: u32 = 128;

/// Size of each fixture file by default: 200 MiB.
pub const DEFAULT_FILE_SIZE: u64 = 209715200;

/// Size of one write while creating a fixture file: 1 MiB.
pub const DEFAULT_WRITE_CHUNK: u64 = 1048576;

/// Length of every timed read.
pub const DEFAULT_READ_LEN: u64 = 4096;

/// Offset of the near read: ten read lengths into the file.
pub const DEFAULT_NEAR_OFFSET: u64 = 40960;

/// Distance between two far-read candidates: 512 KiB.
pub const DEFAULT_FAR_STRIDE: u64 = 524288;

/// Index of the first far-read candidate, in strides.
pub const DEFAULT_FAR_FIRST: u64 = 100;

/// One past the index of the last far-read candidate, in strides.
pub const DEFAULT_FAR_END: u64 = 256;

/// Number of far reads per file.
pub const DEFAULT_FAR_SAMPLES: u64 = 2;

/// What the sum of the far-read times is divided by.
#[derive(Clone, Copy, Debug, PartialEq, Eq, Structural)]
pub enum FarDivisor {
    /// The number of far reads actually made.
    SamplesRead,
    /// The number of candidate offsets the samples were drawn from. This
    /// dilutes the average by the ratio of candidates to samples.
    Candidates,
}

/// The compiled-in parameters of a run.
///
/// Far-read candidates are the offsets `i * far_stride` for `i` in
/// `far_first..far_end` at which a whole read fits in the file.
#[derive(Clone, Copy, Debug, PartialEq, Eq, Structural)]
pub struct Config {
    pub num_files: u32,
    pub file_size: u64,
    pub write_chunk: u64,
    pub read_len: u64,
    pub near_offset: u64,
    pub far_stride: u64,
    pub far_first: u64,
    pub far_end: u64,
    pub far_samples: u64,
    pub far_divisor: FarDivisor,
}

/// Why a configuration cannot drive a run.
#[derive(Clone, Copy, Debug, PartialEq, Eq, Structural)]
pub enum ConfigError {
    /// The write chunk is zero bytes, so creating a file would never end.
    EmptyWriteChunk,
    /// The read length is zero bytes.
    EmptyRead,
    /// The first read does not fit in the file.
    FirstReadOutOfBounds,
    /// The near read does not fit in the file.
    NearReadOutOfBounds,
    /// The far-read stride is zero, so candidates would not increase.
    ZeroStride,
}

impl Config {
    /// A configuration can drive a run: every fixed read fits in the file,
    /// chunks and reads are non-empty and candidates strictly increase.
    pub open spec fn valid(&self) -> bool {
        &&& self.write_chunk > 0
        &&& self.read_len > 0
        &&& self.read_len <= self.file_size
        &&& self.near_offset + self.read_len <= self.file_size
        &&& self.far_stride > 0
    }

    /// The default parameters: 128 files of 200 MiB written in 1 MiB
    /// chunks, 4 KiB reads, the near read ten reads in, and two far reads
    /// among the candidates 100..256 at a stride of 512 KiB, averaged over the
    /// whole candidate set.
    pub open spec fn defaults() -> Config {
        Config {
            num_files: DEFAULT_NUM_FILES,
            file_size: DEFAULT_FILE_SIZE,
            write_chunk: DEFAULT_WRITE_CHUNK,
            read_len: DEFAULT_READ_LEN,
            near_offset: DEFAULT_NEAR_OFFSET,
            far_stride: DEFAULT_FAR_STRIDE,
            far_first: DEFAULT_FAR_FIRST,
            far_end: DEFAULT_FAR_END,
            far_samples: DEFAULT_FAR_SAMPLES,
            far_divisor: FarDivisor::Candidates,
        }
    }

    /// The default parameters, which can drive a run.
    pub fn default_config() -> (r: Config)
        ensures
            r == Config::defaults(),
            r.valid(),
    {
        Config {
            num_files: DEFAULT_NUM_FILES,
            file_size: DEFAULT_FILE_SIZE,
            write_chunk: DEFAULT_WRITE_CHUNK,
            read_len: DEFAULT_READ_LEN,
            near_offset: DEFAULT_NEAR_OFFSET,
            far_stride: DEFAULT_FAR_STRIDE,
            far_first: DEFAULT_FAR_FIRST,
            far_end: DEFAULT_FAR_END,
            far_samples: DEFAULT_FAR_SAMPLES,
            far_divisor: FarDivisor::Candidates,
        }
    }

    /// Checks that the configuration can drive a run, reporting the first
    /// problem found.
    pub fn validate(&self) -> (r: Result<(), ConfigError>)
        ensures
            r is Ok <==> self.valid(),
            r == Err::<(), ConfigError>(ConfigError::EmptyWriteChunk) <==> self.write_chunk == 0,
            r == Err::<(), ConfigError>(ConfigError::EmptyRead) <==> (self.write_chunk > 0
                && self.read_len == 0),
            r == Err::<(), ConfigError>(ConfigError::FirstReadOutOfBounds) <==> (self.write_chunk
                > 0 && self.read_len > 0 && self.read_len > self.file_size),
            r == Err::<(), ConfigError>(ConfigError::NearReadOutOfBounds) <==> (self.write_chunk
                > 0 && self.read_len > 0 && self.read_len <= self.file_size && self.near_offset
                + self.read_len > self.file_size),
            r == Err::<(), ConfigError>(ConfigError::ZeroStride) <==> (self.write_chunk > 0
                && self.read_len > 0 && self.read_len <= self.file_size && self.near_offset
                + self.read_len <= self.file_size && self.far_stride == 0),
    {
        if self.write_chunk == 0 {
            Err(ConfigError::EmptyWriteChunk)
        } else if self.read_len == 0 {
            Err(ConfigError::EmptyRead)
        } else if self.read_len > self.file_size {
            Err(ConfigError::FirstReadOutOfBounds)
        } else if self.near_offset > self.file_size - self.read_len {
            Err(ConfigError::NearReadOutOfBounds)
        } else if self.far_stride == 0 {
            Err(ConfigError::ZeroStride)
        } else {
            Ok(())
        }
    }
}

impl Default for Config {
    fn default() -> (r: Config)
        ensures
            r == Config::defaults(),
    {
        Config::default_config()
    }
}

} // verus!
