//! What the program is running on: the board, and how to ask.
//!
//! `BelaHw` is a C enum and `Bela_detectHw` returns it as an `int`.
//! Which values that `int` can take is decided by the libbela the
//! program is linked against; a board added to a later image is a
//! value with no name here, and [`Board::Unrecognised`] is where those
//! land, carrying the number, rather than being folded into a board
//! this crate does happen to know.

use vstd::prelude::*;

use crate::text::{push_signed_decimal, signed_decimal};

verus! {

/// The `BelaHw` value of NoHardware.
pub const BELA_HW_NO_HARDWARE: i32 = -1;

/// The `BelaHw` value of Bela.
pub const BELA_HW_BELA: i32 = 0;

/// The `BelaHw` value of BelaMini.
pub const BELA_HW_BELA_MINI: i32 = 1;

/// The `BelaHw` value of GemStereo.
pub const BELA_HW_GEM_STEREO: i32 = 2;

/// The `BelaHw` value of GemMulti.
pub const BELA_HW_GEM_MULTI: i32 = 3;

/// The `BelaHw` value of Salt.
pub const BELA_HW_SALT: i32 = 4;

/// The `BelaHw` value of CtagFace.
pub const BELA_HW_CTAG_FACE: i32 = 5;

/// The `BelaHw` value of CtagBeast.
pub const BELA_HW_CTAG_BEAST: i32 = 6;

/// The `BelaHw` value of CtagFaceBela.
pub const BELA_HW_CTAG_FACE_BELA: i32 = 7;

/// The `BelaHw` value of CtagBeastBela.
pub const BELA_HW_CTAG_BEAST_BELA: i32 = 8;

/// The `BelaHw` value of BelaMiniMultiAudio.
pub const BELA_HW_BELA_MINI_MULTI_AUDIO: i32 = 9;

/// The `BelaHw` value of BelaMiniMultiTdm.
pub const BELA_HW_BELA_MINI_MULTI_TDM: i32 = 10;

/// The `BelaHw` value of BelaMultiTdm.
pub const BELA_HW_BELA_MULTI_TDM: i32 = 11;

/// The `BelaHw` value of BelaMiniMultiI2s.
pub const BELA_HW_BELA_MINI_MULTI_I2S: i32 = 12;

/// The `BelaHw` value of BelaEs9080.
pub const BELA_HW_BELA_ES9080: i32 = 13;

/// The `BelaHw` value of BelaRevC.
pub const BELA_HW_BELA_REV_C: i32 = 14;

/// The `BelaHw` value of Batch.
pub const BELA_HW_BATCH: i32 = 15;

/// A board, as libbela's `BelaHw` names it.
///
/// The spelling of each name is libbela's own, so that what a program
/// prints can be compared with what `/run/bela/belaconfig` holds.
#[derive(Debug, Clone, Copy, PartialEq, Eq, Hash)]
#[non_exhaustive]
pub enum Board {
    /// No hardware was detected (`BelaHw_NoHw`): what a detect mode that only
    /// reads a file answers when the file is not there, as well as what a board
    /// with nothing on it says.
    NoHardware,
    /// Bela (`BelaHw_Bela`).
    Bela,
    /// Bela Mini (`BelaHw_BelaMini`).
    BelaMini,
    /// Gem Stereo (`BelaHw_GemStereo`).
    GemStereo,
    /// Gem Multi (`BelaHw_GemMulti`).
    GemMulti,
    /// Salt (`BelaHw_Salt`).
    Salt,
    /// Ctag Face (`BelaHw_CtagFace`).
    CtagFace,
    /// Ctag Beast (`BelaHw_CtagBeast`).
    CtagBeast,
    /// Ctag Face and Bela cape (`BelaHw_CtagFaceBela`).
    CtagFaceBela,
    /// Ctag Beast and Bela cape (`BelaHw_CtagBeastBela`).
    CtagBeastBela,
    /// Bela Mini with extra codecs (`BelaHw_BelaMiniMultiAudio`).
    BelaMiniMultiAudio,
    /// Bela Mini with extra codecs and/or TDM devices
    /// (`BelaHw_BelaMiniMultiTdm`).
    BelaMiniMultiTdm,
    /// Bela with extra codecs and/or TDM devices (`BelaHw_BelaMultiTdm`).
    BelaMultiTdm,
    /// Bela Mini with extra RX and TX I2S data lines
    /// (`BelaHw_BelaMiniMultiI2s`).
    BelaMiniMultiI2s,
    /// A Bela cape with an ES9080 EVB on top, all as audio
    /// (`BelaHw_BelaEs9080`).
    BelaEs9080,
    /// A Bela cape rev C, where the ES9080 provides the analog outputs
    /// (`BelaHw_BelaRevC`).
    BelaRevC,
    /// The offline dummy hardware (`BelaHw_Batch`).
    Batch,
    /// A value the vendored headers do not name, kept as libbela
    /// returned it: a board added to `BelaHw` after the headers were
    /// taken, not a failure to detect.
    ///
    /// Only [`Board::from_raw`] makes one, for a number no other board
    /// has, so every board round-trips through it.
    #[non_exhaustive]
    Unrecognised {
        /// The `BelaHw` libbela returned.
        raw: i32,
    },
}

/// The `BelaHw` a board is.
pub open spec fn spec_board_raw(board: Board) -> i32 {
    match board {
        Board::NoHardware => BELA_HW_NO_HARDWARE,
        Board::Bela => BELA_HW_BELA,
        Board::BelaMini => BELA_HW_BELA_MINI,
        Board::GemStereo => BELA_HW_GEM_STEREO,
        Board::GemMulti => BELA_HW_GEM_MULTI,
        Board::Salt => BELA_HW_SALT,
        Board::CtagFace => BELA_HW_CTAG_FACE,
        Board::CtagBeast => BELA_HW_CTAG_BEAST,
        Board::CtagFaceBela => BELA_HW_CTAG_FACE_BELA,
        Board::CtagBeastBela => BELA_HW_CTAG_BEAST_BELA,
        Board::BelaMiniMultiAudio => BELA_HW_BELA_MINI_MULTI_AUDIO,
        Board::BelaMiniMultiTdm => BELA_HW_BELA_MINI_MULTI_TDM,
        Board::BelaMultiTdm => BELA_HW_BELA_MULTI_TDM,
        Board::BelaMiniMultiI2s => BELA_HW_BELA_MINI_MULTI_I2S,
        Board::BelaEs9080 => BELA_HW_BELA_ES9080,
        Board::BelaRevC => BELA_HW_BELA_REV_C,
        Board::Batch => BELA_HW_BATCH,
        Board::Unrecognised { raw } => raw,
    }
}

/// Whether `raw` is a `BelaHw` the vendored headers name.
pub open spec fn spec_is_named(raw: i32) -> bool {
    -1 <= raw <= 15
}

/// The board a raw `BelaHw` is.
pub open spec fn spec_board_from_raw(raw: i32) -> Board {
    if raw == BELA_HW_NO_HARDWARE {
        Board::NoHardware
    } else if raw == BELA_HW_BELA {
        Board::Bela
    } else if raw == BELA_HW_BELA_MINI {
        Board::BelaMini
    } else if raw == BELA_HW_GEM_STEREO {
        Board::GemStereo
    } else if raw == BELA_HW_GEM_MULTI {
        Board::GemMulti
    } else if raw == BELA_HW_SALT {
        Board::Salt
    } else if raw == BELA_HW_CTAG_FACE {
        Board::CtagFace
    } else if raw == BELA_HW_CTAG_BEAST {
        Board::CtagBeast
    } else if raw == BELA_HW_CTAG_FACE_BELA {
        Board::CtagFaceBela
    } else if raw == BELA_HW_CTAG_BEAST_BELA {
        Board::CtagBeastBela
    } else if raw == BELA_HW_BELA_MINI_MULTI_AUDIO {
        Board::BelaMiniMultiAudio
    } else if raw == BELA_HW_BELA_MINI_MULTI_TDM {
        Board::BelaMiniMultiTdm
    } else if raw == BELA_HW_BELA_MULTI_TDM {
        Board::BelaMultiTdm
    } else if raw == BELA_HW_BELA_MINI_MULTI_I2S {
        Board::BelaMiniMultiI2s
    } else if raw == BELA_HW_BELA_ES9080 {
        Board::BelaEs9080
    } else if raw == BELA_HW_BELA_REV_C {
        Board::BelaRevC
    } else if raw == BELA_HW_BATCH {
        Board::Batch
    } else {
        Board::Unrecognised { raw }
    }
}

/// The name libbela gives a board.
pub open spec fn spec_board_name(board: Board) -> Seq<char> {
    match board {
        Board::NoHardware => "NoHw"@,
        Board::Bela => "Bela"@,
        Board::BelaMini => "BelaMini"@,
        Board::GemStereo => "GemStereo"@,
        Board::GemMulti => "GemMulti"@,
        Board::Salt => "Salt"@,
        Board::CtagFace => "CtagFace"@,
        Board::CtagBeast => "CtagBeast"@,
        Board::CtagFaceBela => "CtagFaceBela"@,
        Board::CtagBeastBela => "CtagBeastBela"@,
        Board::BelaMiniMultiAudio => "BelaMiniMultiAudio"@,
        Board::BelaMiniMultiTdm => "BelaMiniMultiTdm"@,
        Board::BelaMultiTdm => "BelaMultiTdm"@,
        Board::BelaMiniMultiI2s => "BelaMiniMultiI2s"@,
        Board::BelaEs9080 => "BelaEs9080"@,
        Board::BelaRevC => "BelaRevC"@,
        Board::Batch => "Batch"@,
        Board::Unrecognised { raw } => "unrecognised("@ + signed_decimal(raw as int) + ")"@,
    }
}

/// A board that came from [`Board::from_raw`]: an unrecognised one
/// carries a number no named board has.
pub open spec fn spec_board_wf(board: Board) -> bool {
    board matches Board::Unrecognised { raw } ==> !spec_is_named(raw)
}

impl Board {
    /// Reads a raw `BelaHw` as a board.
    pub fn from_raw(raw: i32) -> (board: Self)
        ensures
            board == spec_board_from_raw(raw),
            spec_board_wf(board),
            spec_board_raw(board) == raw,
    {
        if raw == BELA_HW_NO_HARDWARE {
            Self::NoHardware
        } else if raw == BELA_HW_BELA {
            Self::Bela
        } else if raw == BELA_HW_BELA_MINI {
            Self::BelaMini
        } else if raw == BELA_HW_GEM_STEREO {
            Self::GemStereo
        } else if raw == BELA_HW_GEM_MULTI {
            Self::GemMulti
        } else if raw == BELA_HW_SALT {
            Self::Salt
        } else if raw == BELA_HW_CTAG_FACE {
            Self::CtagFace
        } else if raw == BELA_HW_CTAG_BEAST {
            Self::CtagBeast
        } else if raw == BELA_HW_CTAG_FACE_BELA {
            Self::CtagFaceBela
        } else if raw == BELA_HW_CTAG_BEAST_BELA {
            Self::CtagBeastBela
        } else if raw == BELA_HW_BELA_MINI_MULTI_AUDIO {
            Self::BelaMiniMultiAudio
        } else if raw == BELA_HW_BELA_MINI_MULTI_TDM {
            Self::BelaMiniMultiTdm
        } else if raw == BELA_HW_BELA_MULTI_TDM {
            Self::BelaMultiTdm
        } else if raw == BELA_HW_BELA_MINI_MULTI_I2S {
            Self::BelaMiniMultiI2s
        } else if raw == BELA_HW_BELA_ES9080 {
            Self::BelaEs9080
        } else if raw == BELA_HW_BELA_REV_C {
            Self::BelaRevC
        } else if raw == BELA_HW_BATCH {
            Self::Batch
        } else {
            Self::Unrecognised { raw }
        }
    }

    /// The `BelaHw` this board is. An unrecognised board gives back the
    /// number it was built from.
    pub fn to_raw(self) -> (raw: i32)
        ensures
            raw == spec_board_raw(self),
    {
        match self {
            Self::NoHardware => BELA_HW_NO_HARDWARE,
            Self::Bela => BELA_HW_BELA,
            Self::BelaMini => BELA_HW_BELA_MINI,
            Self::GemStereo => BELA_HW_GEM_STEREO,
            Self::GemMulti => BELA_HW_GEM_MULTI,
            Self::Salt => BELA_HW_SALT,
            Self::CtagFace => BELA_HW_CTAG_FACE,
            Self::CtagBeast => BELA_HW_CTAG_BEAST,
            Self::CtagFaceBela => BELA_HW_CTAG_FACE_BELA,
            Self::CtagBeastBela => BELA_HW_CTAG_BEAST_BELA,
            Self::BelaMiniMultiAudio => BELA_HW_BELA_MINI_MULTI_AUDIO,
            Self::BelaMiniMultiTdm => BELA_HW_BELA_MINI_MULTI_TDM,
            Self::BelaMultiTdm => BELA_HW_BELA_MULTI_TDM,
            Self::BelaMiniMultiI2s => BELA_HW_BELA_MINI_MULTI_I2S,
            Self::BelaEs9080 => BELA_HW_BELA_ES9080,
            Self::BelaRevC => BELA_HW_BELA_REV_C,
            Self::Batch => BELA_HW_BATCH,
            Self::Unrecognised { raw } => raw,
        }
    }

    /// Whether this crate's headers name this board: false only for
    /// [`Unrecognised`](Self::Unrecognised).
    pub fn is_recognised(self) -> (recognised: bool)
        ensures
            recognised == !(self is Unrecognised),
    {
        !matches!(self, Self::Unrecognised { .. })
    }

    /// The name libbela gives this board, or `unrecognised(N)` for a
    /// number the headers do not name.
    pub fn to_string(&self) -> (name: String)
        ensures
            name@ == spec_board_name(*self),
    {
        let mut s = String::new();
        match *self {
            Self::NoHardware => s.append("NoHw"),
            Self::Bela => s.append("Bela"),
            Self::BelaMini => s.append("BelaMini"),
            Self::GemStereo => s.append("GemStereo"),
            Self::GemMulti => s.append("GemMulti"),
            Self::Salt => s.append("Salt"),
            Self::CtagFace => s.append("CtagFace"),
            Self::CtagBeast => s.append("CtagBeast"),
            Self::CtagFaceBela => s.append("CtagFaceBela"),
            Self::CtagBeastBela => s.append("CtagBeastBela"),
            Self::BelaMiniMultiAudio => s.append("BelaMiniMultiAudio"),
            Self::BelaMiniMultiTdm => s.append("BelaMiniMultiTdm"),
            Self::BelaMultiTdm => s.append("BelaMultiTdm"),
            Self::BelaMiniMultiI2s => s.append("BelaMiniMultiI2s"),
            Self::BelaEs9080 => s.append("BelaEs9080"),
            Self::BelaRevC => s.append("BelaRevC"),
            Self::Batch => s.append("Batch"),
            Self::Unrecognised { raw } => {
                s.append("unrecognised(");
                push_signed_decimal(&mut s, raw as i64);
                s.append(")");
            },
        }
        s
    }
}

/// Every board round-trips through its number, and every number through
/// its board: `from_raw` and `to_raw` undo each other.
pub proof fn lemma_board_round_trip(raw: i32, board: Board)
    requires
        spec_board_wf(board),
    ensures
        spec_board_raw(spec_board_from_raw(raw)) == raw,
        spec_board_from_raw(spec_board_raw(board)) == board,
{
}

/// Each board is its own `BelaHw` value, as libbela numbers the enum:
/// the number a board is read from is the number it is written back as,
/// board by board, and reading a number gives the board libbela names
/// for it. Any other number is no named board.
pub proof fn lemma_each_board_has_its_own_number(raw: i32)
    ensures
        spec_board_raw(Board::NoHardware) == -1i32 && spec_board_from_raw(-1i32) == Board::NoHardware,
        spec_board_raw(Board::Bela) == 0i32 && spec_board_from_raw(0i32) == Board::Bela,
        spec_board_raw(Board::BelaMini) == 1i32 && spec_board_from_raw(1i32) == Board::BelaMini,
        spec_board_raw(Board::GemStereo) == 2i32 && spec_board_from_raw(2i32) == Board::GemStereo,
        spec_board_raw(Board::GemMulti) == 3i32 && spec_board_from_raw(3i32) == Board::GemMulti,
        spec_board_raw(Board::Salt) == 4i32 && spec_board_from_raw(4i32) == Board::Salt,
        spec_board_raw(Board::CtagFace) == 5i32 && spec_board_from_raw(5i32) == Board::CtagFace,
        spec_board_raw(Board::CtagBeast) == 6i32 && spec_board_from_raw(6i32) == Board::CtagBeast,
        spec_board_raw(Board::CtagFaceBela) == 7i32 && spec_board_from_raw(7i32) == Board::CtagFaceBela,
        spec_board_raw(Board::CtagBeastBela) == 8i32 && spec_board_from_raw(8i32) == Board::CtagBeastBela,
        spec_board_raw(Board::BelaMiniMultiAudio) == 9i32 && spec_board_from_raw(9i32) == Board::BelaMiniMultiAudio,
        spec_board_raw(Board::BelaMiniMultiTdm) == 10i32 && spec_board_from_raw(10i32) == Board::BelaMiniMultiTdm,
        spec_board_raw(Board::BelaMultiTdm) == 11i32 && spec_board_from_raw(11i32) == Board::BelaMultiTdm,
        spec_board_raw(Board::BelaMiniMultiI2s) == 12i32 && spec_board_from_raw(12i32) == Board::BelaMiniMultiI2s,
        spec_board_raw(Board::BelaEs9080) == 13i32 && spec_board_from_raw(13i32) == Board::BelaEs9080,
        spec_board_raw(Board::BelaRevC) == 14i32 && spec_board_from_raw(14i32) == Board::BelaRevC,
        spec_board_raw(Board::Batch) == 15i32 && spec_board_from_raw(15i32) == Board::Batch,
        spec_board_name(spec_board_from_raw(-1i32)) == "NoHw"@,
        spec_board_name(spec_board_from_raw(0i32)) == "Bela"@,
        spec_board_name(spec_board_from_raw(1i32)) == "BelaMini"@,
        spec_board_name(spec_board_from_raw(2i32)) == "GemStereo"@,
        spec_board_name(spec_board_from_raw(3i32)) == "GemMulti"@,
        spec_board_name(spec_board_from_raw(4i32)) == "Salt"@,
        spec_board_name(spec_board_from_raw(5i32)) == "CtagFace"@,
        spec_board_name(spec_board_from_raw(6i32)) == "CtagBeast"@,
        spec_board_name(spec_board_from_raw(7i32)) == "CtagFaceBela"@,
        spec_board_name(spec_board_from_raw(8i32)) == "CtagBeastBela"@,
        spec_board_name(spec_board_from_raw(9i32)) == "BelaMiniMultiAudio"@,
        spec_board_name(spec_board_from_raw(10i32)) == "BelaMiniMultiTdm"@,
        spec_board_name(spec_board_from_raw(11i32)) == "BelaMultiTdm"@,
        spec_board_name(spec_board_from_raw(12i32)) == "BelaMiniMultiI2s"@,
        spec_board_name(spec_board_from_raw(13i32)) == "BelaEs9080"@,
        spec_board_name(spec_board_from_raw(14i32)) == "BelaRevC"@,
        spec_board_name(spec_board_from_raw(15i32)) == "Batch"@,
        (raw < -1 || raw > 15) ==> spec_board_from_raw(raw) == (Board::Unrecognised { raw }),
{
}

/// How [`Board`] detection should go about finding out.
#[derive(Debug, Clone, Copy, PartialEq, Eq, Hash)]
#[non_exhaustive]
pub enum DetectMode {
    /// Scan the peripherals and buses, and cache the result in
    /// `/run/bela/belaconfig`. The only mode that writes anything.
    Scan,
    /// Read `/run/bela/belaconfig`, and [`Scan`](Self::Scan) if it is not
    /// there.
    Cache,
    /// Read `/run/bela/belaconfig`, and answer [`Board::NoHardware`] if it is
    /// not there.
    CacheOnly,
    /// Read `~/.bela/belaconfig`, and fall back to [`Cache`](Self::Cache) if it
    /// is not there.
    User,
    /// Read `~/.bela/belaconfig`, and answer [`Board::NoHardware`] if it is not
    /// there.
    UserOnly,
}

/// The `BelaHwDetectMode` a mode is.
pub open spec fn spec_mode_raw(mode: DetectMode) -> u32 {
    match mode {
        DetectMode::Scan => 0,
        DetectMode::Cache => 1,
        DetectMode::CacheOnly => 2,
        DetectMode::User => 3,
        DetectMode::UserOnly => 4,
    }
}

/// How a mode is written.
pub open spec fn spec_mode_name(mode: DetectMode) -> Seq<char> {
    match mode {
        DetectMode::Scan => "scan"@,
        DetectMode::Cache => "cache"@,
        DetectMode::CacheOnly => "cache-only"@,
        DetectMode::User => "user"@,
        DetectMode::UserOnly => "user-only"@,
    }
}

impl DetectMode {
    /// The `BelaHwDetectMode` this mode is.
    pub fn to_raw(self) -> (raw: u32)
        ensures
            raw == spec_mode_raw(self),
    {
        match self {
            Self::Scan => 0,
            Self::Cache => 1,
            Self::CacheOnly => 2,
            Self::User => 3,
            Self::UserOnly => 4,
        }
    }

    /// Every mode, in the order the C enum declares them.
    pub fn all() -> (modes: Vec<Self>)
        ensures
            modes@ == seq![DetectMode::Scan, DetectMode::Cache, DetectMode::CacheOnly, DetectMode::User, DetectMode::UserOnly],
    {
        vec![Self::Scan, Self::Cache, Self::CacheOnly, Self::User, Self::UserOnly]
    }

    /// How this mode is written.
    pub fn to_string(&self) -> (name: String)
        ensures
            name@ == spec_mode_name(*self),
    {
        let mut s = String::new();
        match *self {
            Self::Scan => s.append("scan"),
            Self::Cache => s.append("cache"),
            Self::CacheOnly => s.append("cache-only"),
            Self::User => s.append("user"),
            Self::UserOnly => s.append("user-only"),
        }
        s
    }
}

} // verus!
