//! The game-facing layer: record descriptions for the target game's
//! classes, the dual-layout game-manager binding, the timer binding, and
//! the pure split/display rules that interpret decoded values.
//!
//! The game manager exists in two full class layouts — the base release
//! and the expanded release — selected by an explicit capability-detection
//! step: the base layout is tried first, and the expanded layout is bound
//! only where the base one cannot be.

use crate::binding::{
    bind, bind_guaranteed, binding_sound, class_entry_named, class_named, decode, field_names_of,
    snapshot_available, FieldDesc, RecordBinding, RecordDesc,
};
use crate::glib::{bucket_chains, CHAIN_CAP};
use crate::classes::aot_class_addrs;
use crate::memory::ProcessMemory;
use crate::metadata::{Abi, MonoClass, MonoImage, LEGACY_CLASS_DEF_SIZE};
use crate::ptr::Ptr;
use crate::{BindFailure, DecodeFailure};
use vstd::prelude::*;

verus! {

/// The game-manager class name.
pub open spec fn gm_class_name() -> Seq<u8> {
    seq![71u8, 97u8, 109u8, 101u8, 77u8, 97u8, 110u8, 97u8, 103u8, 101u8, 114u8]
}

/// The bytes of [`gm_class_name`].
pub fn gm_class_name_bytes() -> (r: Vec<u8>)
    ensures
        r@ == gm_class_name(),
{
    let v: Vec<u8> = vec![71u8, 97u8, 109u8, 101u8, 77u8, 97u8, 110u8, 97u8, 103u8, 101u8, 114u8];
    proof {
        assert(v@ =~= gm_class_name());
    }
    v
}

/// The empty namespace.
pub open spec fn empty_name() -> Seq<u8> {
    Seq::empty()
}

/// The bytes of [`empty_name`].
pub fn empty_name_bytes() -> (r: Vec<u8>)
    ensures
        r@ == empty_name(),
{
    let v: Vec<u8> = Vec::new();
    proof {
        assert(v@ =~= empty_name());
    }
    v
}

/// The game-state field of the base release's layout.
pub open spec fn gm_field_state() -> Seq<u8> {
    seq![103u8, 97u8, 109u8, 101u8, 83u8, 116u8, 97u8, 116u8, 101u8]
}

/// The bytes of [`gm_field_state`].
pub fn gm_field_state_bytes() -> (r: Vec<u8>)
    ensures
        r@ == gm_field_state(),
{
    let v: Vec<u8> = vec![103u8, 97u8, 109u8, 101u8, 83u8, 116u8, 97u8, 116u8, 101u8];
    proof {
        assert(v@ =~= gm_field_state());
    }
    v
}

/// The game-state field of the expanded release's layout.
pub open spec fn gm_field_state_dlc() -> Seq<u8> {
    seq![60u8, 71u8, 97u8, 109u8, 101u8, 83u8, 116u8, 97u8, 116u8, 101u8, 62u8, 107u8, 95u8, 95u8, 66u8, 97u8, 99u8, 107u8, 105u8, 110u8, 103u8, 70u8, 105u8, 101u8, 108u8, 100u8]
}

/// The bytes of [`gm_field_state_dlc`].
pub fn gm_field_state_dlc_bytes() -> (r: Vec<u8>)
    ensures
        r@ == gm_field_state_dlc(),
{
    let v: Vec<u8> = vec![60u8, 71u8, 97u8, 109u8, 101u8, 83u8, 116u8, 97u8, 116u8, 101u8, 62u8, 107u8, 95u8, 95u8, 66u8, 97u8, 99u8, 107u8, 105u8, 110u8, 103u8, 70u8, 105u8, 101u8, 108u8, 100u8];
    proof {
        assert(v@ =~= gm_field_state_dlc());
    }
    v
}

/// The points counter field.
pub open spec fn gm_field_points() -> Seq<u8> {
    seq![95u8, 112u8, 111u8, 105u8, 110u8, 116u8, 115u8]
}

/// The bytes of [`gm_field_points`].
pub fn gm_field_points_bytes() -> (r: Vec<u8>)
    ensures
        r@ == gm_field_points(),
{
    let v: Vec<u8> = vec![95u8, 112u8, 111u8, 105u8, 110u8, 116u8, 115u8];
    proof {
        assert(v@ =~= gm_field_points());
    }
    v
}

/// The deaths counter field.
pub open spec fn gm_field_deaths() -> Seq<u8> {
    seq![95u8, 100u8, 101u8, 97u8, 116u8, 104u8, 115u8]
}

/// The bytes of [`gm_field_deaths`].
pub fn gm_field_deaths_bytes() -> (r: Vec<u8>)
    ensures
        r@ == gm_field_deaths(),
{
    let v: Vec<u8> = vec![95u8, 100u8, 101u8, 97u8, 116u8, 104u8, 115u8];
    proof {
        assert(v@ =~= gm_field_deaths());
    }
    v
}

/// The current-level field of the base release's layout.
pub open spec fn gm_field_level() -> Seq<u8> {
    seq![99u8, 117u8, 114u8, 114u8, 101u8, 110u8, 116u8, 76u8, 101u8, 118u8, 101u8, 108u8]
}

/// The bytes of [`gm_field_level`].
pub fn gm_field_level_bytes() -> (r: Vec<u8>)
    ensures
        r@ == gm_field_level(),
{
    let v: Vec<u8> = vec![99u8, 117u8, 114u8, 114u8, 101u8, 110u8, 116u8, 76u8, 101u8, 118u8, 101u8, 108u8];
    proof {
        assert(v@ =~= gm_field_level());
    }
    v
}

/// The current-scene string field of the expanded release's layout.
pub open spec fn gm_field_scene() -> Seq<u8> {
    seq![95u8, 99u8, 117u8, 114u8, 114u8, 101u8, 110u8, 116u8, 83u8, 99u8, 101u8, 110u8, 101u8]
}

/// The bytes of [`gm_field_scene`].
pub fn gm_field_scene_bytes() -> (r: Vec<u8>)
    ensures
        r@ == gm_field_scene(),
{
    let v: Vec<u8> = vec![95u8, 99u8, 117u8, 114u8, 114u8, 101u8, 110u8, 116u8, 83u8, 99u8, 101u8, 110u8, 101u8];
    proof {
        assert(v@ =~= gm_field_scene());
    }
    v
}

/// The timer class name.
pub open spec fn timer_class_name() -> Seq<u8> {
    seq![84u8, 105u8, 109u8, 101u8, 114u8]
}

/// The bytes of [`timer_class_name`].
pub fn timer_class_name_bytes() -> (r: Vec<u8>)
    ensures
        r@ == timer_class_name(),
{
    let v: Vec<u8> = vec![84u8, 105u8, 109u8, 101u8, 114u8];
    proof {
        assert(v@ =~= timer_class_name());
    }
    v
}

/// The running level time field.
pub open spec fn timer_field_level_time() -> Seq<u8> {
    seq![99u8, 117u8, 114u8, 114u8, 101u8, 110u8, 116u8, 76u8, 101u8, 118u8, 101u8, 108u8, 84u8, 105u8, 109u8, 101u8]
}

/// The bytes of [`timer_field_level_time`].
pub fn timer_field_level_time_bytes() -> (r: Vec<u8>)
    ensures
        r@ == timer_field_level_time(),
{
    let v: Vec<u8> = vec![99u8, 117u8, 114u8, 114u8, 101u8, 110u8, 116u8, 76u8, 101u8, 118u8, 101u8, 108u8, 84u8, 105u8, 109u8, 101u8];
    proof {
        assert(v@ =~= timer_field_level_time());
    }
    v
}

/// The split-digits vector field.
pub open spec fn timer_field_vector() -> Seq<u8> {
    seq![99u8, 117u8, 114u8, 114u8, 101u8, 110u8, 116u8, 76u8, 101u8, 118u8, 101u8, 108u8, 84u8, 105u8, 109u8, 101u8, 86u8, 101u8, 99u8, 116u8, 111u8, 114u8]
}

/// The bytes of [`timer_field_vector`].
pub fn timer_field_vector_bytes() -> (r: Vec<u8>)
    ensures
        r@ == timer_field_vector(),
{
    let v: Vec<u8> = vec![99u8, 117u8, 114u8, 114u8, 101u8, 110u8, 116u8, 76u8, 101u8, 118u8, 101u8, 108u8, 84u8, 105u8, 109u8, 101u8, 86u8, 101u8, 99u8, 116u8, 111u8, 114u8];
    proof {
        assert(v@ =~= timer_field_vector());
    }
    v
}

/// The timer-stopped flag field.
pub open spec fn timer_field_stopped() -> Seq<u8> {
    seq![116u8, 105u8, 109u8, 101u8, 114u8, 83u8, 116u8, 111u8, 112u8, 112u8, 101u8, 100u8]
}

/// The bytes of [`timer_field_stopped`].
pub fn timer_field_stopped_bytes() -> (r: Vec<u8>)
    ensures
        r@ == timer_field_stopped(),
{
    let v: Vec<u8> = vec![116u8, 105u8, 109u8, 101u8, 114u8, 83u8, 116u8, 111u8, 112u8, 112u8, 101u8, 100u8];
    proof {
        assert(v@ =~= timer_field_stopped());
    }
    v
}

/// The selected-character field.
pub open spec fn timer_field_character() -> Seq<u8> {
    seq![99u8, 104u8, 97u8, 114u8, 97u8, 99u8, 116u8, 101u8, 114u8]
}

/// The bytes of [`timer_field_character`].
pub fn timer_field_character_bytes() -> (r: Vec<u8>)
    ensures
        r@ == timer_field_character(),
{
    let v: Vec<u8> = vec![99u8, 104u8, 97u8, 114u8, 97u8, 99u8, 116u8, 101u8, 114u8];
    proof {
        assert(v@ =~= timer_field_character());
    }
    v
}

/// The auto-property backing field holding the static singleton.
pub open spec fn instance_field_backing() -> Seq<u8> {
    seq![60u8, 73u8, 110u8, 115u8, 116u8, 97u8, 110u8, 99u8, 101u8, 62u8, 107u8, 95u8, 95u8, 66u8, 97u8, 99u8, 107u8, 105u8, 110u8, 103u8, 70u8, 105u8, 101u8, 108u8, 100u8]
}

/// The bytes of [`instance_field_backing`].
pub fn instance_field_backing_bytes() -> (r: Vec<u8>)
    ensures
        r@ == instance_field_backing(),
{
    let v: Vec<u8> = vec![60u8, 73u8, 110u8, 115u8, 116u8, 97u8, 110u8, 99u8, 101u8, 62u8, 107u8, 95u8, 95u8, 66u8, 97u8, 99u8, 107u8, 105u8, 110u8, 103u8, 70u8, 105u8, 101u8, 108u8, 100u8];
    proof {
        assert(v@ =~= instance_field_backing());
    }
    v
}

/// The plain static singleton field.
pub open spec fn instance_field_plain() -> Seq<u8> {
    seq![95u8, 105u8, 110u8, 115u8, 116u8, 97u8, 110u8, 99u8, 101u8]
}

/// The bytes of [`instance_field_plain`].
pub fn instance_field_plain_bytes() -> (r: Vec<u8>)
    ensures
        r@ == instance_field_plain(),
{
    let v: Vec<u8> = vec![95u8, 105u8, 110u8, 115u8, 116u8, 97u8, 110u8, 99u8, 101u8];
    proof {
        assert(v@ =~= instance_field_plain());
    }
    v
}

/// The mission game state.
pub const GAME_STATE_MISSION: i32 = 0;

/// The title-screen game state.
pub const GAME_STATE_TITLE_SCREEN: i32 = 1;

/// The menu game state.
pub const GAME_STATE_MENU: i32 = 2;

/// The cutscene game state.
pub const GAME_STATE_CUTSCENE: i32 = 3;

/// The death game state.
pub const GAME_STATE_DEATH: i32 = 4;

/// The respawn game state.
pub const GAME_STATE_RESPAWN: i32 = 5;

/// The results-screen game state, on which a split fires.
pub const GAME_STATE_RESULTS: i32 = 6;

/// The loading game state.
pub const GAME_STATE_LOAD: i32 = 7;

/// The first level of the base release.
pub const LEVEL_1_1: i32 = 0;

/// The level the credits play in.
pub const LEVEL_2_1: i32 = 2;

/// The first of the final levels.
pub const LEVEL_7_2: i32 = 13;

/// The bonus final level.
pub const LEVEL_7_X: i32 = 14;

/// The decimal digits of `n`, most significant first.
pub open spec fn dec_bytes(n: nat) -> Seq<u8>
    decreases n,
{
    if n < 10 {
        seq![(48 + n) as u8]
    } else {
        dec_bytes(n / 10) + seq![(48 + n % 10) as u8]
    }
}

/// The decimal representation of `n`, with a leading minus sign where it
/// is negative.
pub open spec fn dec_int(n: int) -> Seq<u8> {
    if n >= 0 {
        dec_bytes(n as nat)
    } else {
        seq![45u8] + dec_bytes((-n) as nat)
    }
}

/// Relies on itoa's `Buffer::format`: the shortest decimal representation
/// of the integer, most significant digit first, minus-signed if negative.
#[verifier::external_body]
fn format_i64(n: i64) -> (r: Vec<u8>)
    ensures
        r@ == dec_int(n as int),
{
    itoa::Buffer::new().format(n).as_bytes().to_vec()
}

/// Zero-pads a digit string on the left to at least two digits.
pub open spec fn pad2(d: Seq<u8>) -> Seq<u8> {
    if d.len() < 2 {
        seq![48u8] + d
    } else {
        d
    }
}

/// Formats the level-time digit triple the way the timer display does:
/// `minutes:seconds.hundredths`, the latter two zero-padded to two digits.
pub fn format_digits(minutes: u32, seconds: u8, hundredths: u8) -> (r: Vec<u8>)
    ensures
        r@ == dec_bytes(minutes as nat) + seq![58u8] + pad2(dec_bytes(seconds as nat)) + seq![46u8]
            + pad2(dec_bytes(hundredths as nat)),
{
    let mut out = format_i64(minutes as i64);
    out.push(58);
    let s = format_i64(seconds as i64);
    if s.len() < 2 {
        out.push(48);
    }
    let mut s2 = s;
    out.append(&mut s2);
    out.push(46);
    let h = format_i64(hundredths as i64);
    if h.len() < 2 {
        out.push(48);
    }
    let mut h2 = h;
    out.append(&mut h2);
    proof {
        assert(out@ =~= dec_bytes(minutes as nat) + seq![58u8] + pad2(dec_bytes(seconds as nat))
            + seq![46u8] + pad2(dec_bytes(hundredths as nat)));
    }
    out
}

/// The stage number a level index belongs to, capped at the last stage.
pub open spec fn stage_spec(level: int) -> int {
    if level >= 0 {
        if level / 2 + 1 < 7 {
            level / 2 + 1
        } else {
            7
        }
    } else {
        1 - ((-level) / 2)
    }
}

/// The act tag of a level index: the bonus level's own tag, else by parity.
pub open spec fn act_spec(level: int) -> u8 {
    if level == LEVEL_7_X {
        88u8
    } else if level % 2 == 0 {
        49u8
    } else {
        50u8
    }
}

/// The stage number of a level index, `stage-act` style.
pub fn stage(level: i32) -> (r: i32)
    ensures
        r as int == stage_spec(level as int),
{
    if level >= 0 {
        let q: u32 = (level as u32) / 2;
        let s: u32 = q + 1;
        if s < 7 {
            s as i32
        } else {
            7
        }
    } else {
        let m: u64 = (-(level as i64)) as u64;
        let q: u64 = m / 2;
        let r: i64 = 1 - (q as i64);
        r as i32
    }
}

/// The act character of a level index.
pub fn act(level: i32) -> (r: u8)
    ensures
        r == act_spec(level as int),
{
    if level == LEVEL_7_X {
        88
    } else {
        let even: bool = if level >= 0 {
            (level as u32) % 2 == 0
        } else {
            ((-(level as i64)) as u64) % 2 == 0
        };
        proof {
            let l = level as int;
            if l < 0 {
                assert((l % 2 == 0) == ((-l) % 2 == 0)) by (nonlinear_arith);
            }
        }
        if even {
            49
        } else {
            50
        }
    }
}

/// Formats a level index as `stage-act`.
pub fn format_level_into(level: i32) -> (r: Vec<u8>)
    ensures
        r@ == dec_int(stage_spec(level as int)) + seq![45u8] + seq![act_spec(level as int)],
{
    let mut out = format_i64(stage(level) as i64);
    out.push(45);
    out.push(act(level));
    proof {
        assert(out@ =~= dec_int(stage_spec(level as int)) + seq![45u8] + seq![
            act_spec(level as int),
        ]);
    }
    out
}

/// The UTF-16 code units of the first level's scene name.
pub open spec fn first_level_scene() -> Seq<u16> {
    seq![83u16, 104u16, 114u16, 105u16, 110u16, 101u16, 48u16, 49u16]
}

/// Where the game currently is: a level index under the base release, a
/// scene name under the expanded release.
#[derive(Debug)]
pub enum LevelOrScene {
    Level(i32),
    Scene(Vec<u16>),
}

fn is_first_scene(s: &Vec<u16>) -> (r: bool)
    ensures
        r == (s@ == first_level_scene()),
{
    if s.len() != 8 {
        return false;
    }
    let r = s[0] == 83 && s[1] == 104 && s[2] == 114 && s[3] == 105 && s[4] == 110 && s[5] == 101
        && s[6] == 48 && s[7] == 49;
    proof {
        if r {
            assert(s@ =~= first_level_scene());
        } else {
            if s@ == first_level_scene() {
                assert(s@[0] == 83 && s@[1] == 104 && s@[2] == 114 && s@[3] == 105 && s@[4] == 110
                    && s@[5] == 101 && s@[6] == 48 && s@[7] == 49);
            }
        }
    }
    r
}

impl LevelOrScene {
    /// Whether the run is in the first level, where the timer may start.
    pub fn is_in_first_level(&self) -> (r: bool)
        ensures
            r == match self {
                LevelOrScene::Level(v) => *v == LEVEL_1_1,
                LevelOrScene::Scene(s) => s@ == first_level_scene(),
            },
    {
        match self {
            LevelOrScene::Level(v) => *v == LEVEL_1_1,
            LevelOrScene::Scene(s) => is_first_scene(s),
        }
    }

    /// Whether the run is in one of the final levels.
    pub fn is_in_final_level(&self) -> (r: bool)
        ensures
            r == match self {
                LevelOrScene::Level(v) => *v >= LEVEL_7_2,
                LevelOrScene::Scene(_) => false,
            },
    {
        match self {
            LevelOrScene::Level(v) => *v >= LEVEL_7_2,
            LevelOrScene::Scene(_) => false,
        }
    }

    /// Whether the run is in the credits level.
    pub fn is_in_credits(&self) -> (r: bool)
        ensures
            r == match self {
                LevelOrScene::Level(v) => *v == LEVEL_2_1,
                LevelOrScene::Scene(_) => false,
            },
    {
        match self {
            LevelOrScene::Level(v) => *v == LEVEL_2_1,
            LevelOrScene::Scene(_) => false,
        }
    }
}

/// The signed 32-bit interpretation of an unsigned 32-bit value.
pub open spec fn to_i32(v: int) -> int {
    if v < 0x8000_0000 {
        v
    } else {
        v - 0x1_0000_0000
    }
}

fn vec_u32_at(v: &Vec<u8>, off: usize) -> (r: u32)
    requires
        off + 4 <= v@.len(),
    ensures
        r as int == v@[off as int] + 0x100 * v@[off as int + 1] + 0x1_0000 * v@[off as int + 2]
            + 0x100_0000 * v@[off as int + 3],
{
    let l = v.len();
    proof {
        assert(off + 4 <= l);
    }
    v[off] as u32 + 0x100 * v[off + 1] as u32 + 0x1_0000 * v[off + 2] as u32 + 0x100_0000 * v[off
        + 3] as u32
}

fn vec_u64_at(v: &Vec<u8>, off: usize) -> (r: u64)
    requires
        off + 8 <= v@.len(),
    ensures
        r as int == v@[off as int] + 0x100 * v@[off as int + 1] + 0x1_0000 * v@[off as int + 2]
            + 0x100_0000 * v@[off as int + 3] + 0x1_0000_0000 * v@[off as int + 4]
            + 0x100_0000_0000 * v@[off as int + 5] + 0x1_0000_0000_0000 * v@[off as int + 6]
            + 0x100_0000_0000_0000 * v@[off as int + 7],
{
    let l = v.len();
    proof {
        assert(off + 8 <= l);
    }
    let lo = vec_u32_at(v, off);
    let hi = vec_u32_at(v, off + 4);
    lo as u64 + 0x1_0000_0000 * hi as u64
}

fn i32_from_u32(u: u32) -> (r: i32)
    ensures
        r as int == to_i32(u as int),
{
    if u < 0x8000_0000 {
        u as i32
    } else {
        let d: u32 = (0xFFFF_FFFFu32 - u) + 1;
        if d == 0x8000_0000 {
            i32::MIN
        } else {
            -(d as i32)
        }
    }
}

/// The snapshot bytes of a 4-byte field at offset `a` equal the memory's
/// little-endian 32-bit value there.
proof fn lemma_bytes4_u32(mem: ProcessMemory, a: int, s: Seq<u8>)
    requires
        s == mem.bytes_at(a, 4),
    ensures
        s[0] + 0x100 * s[1] + 0x1_0000 * s[2] + 0x100_0000 * s[3] == mem.u32_at(a),
{
    assert(s[0] == mem.byte_at(a + 0));
    assert(s[1] == mem.byte_at(a + 1));
    assert(s[2] == mem.byte_at(a + 2));
    assert(s[3] == mem.byte_at(a + 3));
}

/// The snapshot bytes of an 8-byte field at offset `a` equal the memory's
/// little-endian 64-bit value there.
proof fn lemma_bytes8_u64(mem: ProcessMemory, a: int, s: Seq<u8>)
    requires
        s == mem.bytes_at(a, 8),
    ensures
        s[0] + 0x100 * s[1] + 0x1_0000 * s[2] + 0x100_0000 * s[3] + 0x1_0000_0000 * s[4]
            + 0x100_0000_0000 * s[5] + 0x1_0000_0000_0000 * s[6] + 0x100_0000_0000_0000 * s[7]
            == mem.u64_at(a),
{
    assert(s[0] == mem.byte_at(a + 0));
    assert(s[1] == mem.byte_at(a + 1));
    assert(s[2] == mem.byte_at(a + 2));
    assert(s[3] == mem.byte_at(a + 3));
    assert(s[4] == mem.byte_at(a + 4));
    assert(s[5] == mem.byte_at(a + 5));
    assert(s[6] == mem.byte_at(a + 6));
    assert(s[7] == mem.byte_at(a + 7));
}

/// The capped code-unit count of the managed string object at `p`.
pub open spec fn scene_len(mem: ProcessMemory, p: int) -> int {
    let l = mem.u32_at(p + 16);
    if l < 16 {
        l
    } else {
        16
    }
}

/// The managed string object at `p` — length then characters — is
/// readable up to the cap.
pub open spec fn string_readable(mem: ProcessMemory, p: int) -> bool {
    &&& p != 0
    &&& p + 20 <= 0x1_0000_0000_0000_0000
    &&& mem.mapped_range(p + 16, 4)
    &&& p + 20 + 2 * scene_len(mem, p) <= 0x1_0000_0000_0000_0000
    &&& mem.mapped_range(p + 20, 2 * scene_len(mem, p))
}

/// The capped UTF-16 code units of the managed string object at `p`.
pub open spec fn scene_units(mem: ProcessMemory, p: int) -> Seq<u16> {
    Seq::new(scene_len(mem, p) as nat, |i: int| mem.u16_at(p + 20 + 2 * i) as u16)
}

/// The scene name decoded from the string object at `p`: its code units
/// where the object is readable, empty otherwise.
pub open spec fn scene_or_empty(mem: ProcessMemory, p: int) -> Seq<u16> {
    if string_readable(mem, p) {
        scene_units(mem, p)
    } else {
        Seq::empty()
    }
}

/// Reads the UTF-16 code units of a managed string object: the length
/// lives at byte 16, the characters from byte 20 on; at most 16 units are
/// read.  Returns nothing — not a partial string — on any read failure.
#[verifier::loop_isolation(false)]
pub fn read_string(mem: &ProcessMemory, ptr: Ptr<()>) -> (r: Option<Vec<u16>>)
    ensures
        r is Some <==> string_readable(*mem, ptr.addr as int),
        r matches Some(v) ==> v@ == scene_units(*mem, ptr.addr as int),
{
    if ptr.addr == 0 {
        return None;
    }
    if ptr.addr > u64::MAX - 19 {
        return None;
    }
    let len_raw = match mem.read_u32(ptr.addr + 16) {
        Ok(l) => l,
        Err(_) => {
            return None;
        },
    };
    let len: u32 = if len_raw < 16 {
        len_raw
    } else {
        16
    };
    let mut v: Vec<u16> = Vec::new();
    let mut i: u32 = 0;
    while i < len
        invariant
            i <= len,
            len == scene_len(*mem, ptr.addr as int),
            v@.len() == i,
            ptr.addr + 20 + 2 * i <= 0x1_0000_0000_0000_0000,
            mem.mapped_range(ptr.addr + 20, 2 * i as int),
            forall|j: int|
                0 <= j < i ==> (#[trigger] v@[j]) as int == mem.u16_at(ptr.addr + 20 + 2 * j),
        decreases len - i,
    {
        let a = match ptr.addr.checked_add(20 + 2 * (i as u64)) {
            Some(x) => x,
            None => {
                return None;
            },
        };
        let u = match mem.read_u16(a) {
            Ok(u) => u,
            Err(_) => {
                proof {
                    assert(!mem.is_mapped(ptr.addr + 20 + 2 * (i as int))
                        || !mem.is_mapped(ptr.addr + 21 + 2 * (i as int))
                        || ptr.addr + 22 + 2 * (i as int) > 0x1_0000_0000_0000_0000);
                }
                return None;
            },
        };
        let ghost prev = v@;
        v.push(u);
        proof {
            assert forall|j: int|
                0 <= j < v@.len() implies (#[trigger] v@[j]) as int == mem.u16_at(
                ptr.addr + 20 + 2 * j,
            ) by {
                if j < prev.len() {
                    assert(prev.push(u)[j] == prev[j]);
                } else {
                    assert(prev.push(u)[j] == u);
                }
            }
            assert forall|k: int|
                ptr.addr + 20 <= k < ptr.addr + 20 + 2 * (i + 1) implies mem.is_mapped(k) by {
                if k >= ptr.addr + 20 + 2 * i {
                    assert(mem.is_mapped(k));
                }
            }
        }
        i = i + 1;
    }
    proof {
        assert(v@ =~= scene_units(*mem, ptr.addr as int));
    }
    Some(v)
}

/// The game manager's decoded sample: its state machine value, the score
/// counters, and where the run currently is.
#[derive(Debug)]
pub struct GameManager {
    pub game_state: i32,
    pub points: i32,
    pub deaths: i32,
    pub level_or_scene: LevelOrScene,
}

/// The game-manager record of the base release's layout.
pub fn game_manager_desc() -> (r: RecordDesc)
    ensures
        r.class_name@ == gm_class_name(),
        r.name_space@ == empty_name(),
        r.fields@.len() == 4,
        r.fields@[0].name@ == gm_field_state() && r.fields@[0].size == 4,
        r.fields@[1].name@ == gm_field_points() && r.fields@[1].size == 4,
        r.fields@[2].name@ == gm_field_deaths() && r.fields@[2].size == 4,
        r.fields@[3].name@ == gm_field_level() && r.fields@[3].size == 4,
{
    let mut fields: Vec<FieldDesc> = Vec::new();
    fields.push(FieldDesc { name: gm_field_state_bytes(), size: 4 });
    fields.push(FieldDesc { name: gm_field_points_bytes(), size: 4 });
    fields.push(FieldDesc { name: gm_field_deaths_bytes(), size: 4 });
    fields.push(FieldDesc { name: gm_field_level_bytes(), size: 4 });
    RecordDesc {
        class_name: gm_class_name_bytes(),
        name_space: empty_name_bytes(),
        fields,
    }
}

/// The game-manager record of the expanded release's layout.
pub fn game_manager_desc_dlc() -> (r: RecordDesc)
    ensures
        r.class_name@ == gm_class_name(),
        r.name_space@ == empty_name(),
        r.fields@.len() == 4,
        r.fields@[0].name@ == gm_field_state_dlc() && r.fields@[0].size == 4,
        r.fields@[1].name@ == gm_field_points() && r.fields@[1].size == 4,
        r.fields@[2].name@ == gm_field_deaths() && r.fields@[2].size == 4,
        r.fields@[3].name@ == gm_field_scene() && r.fields@[3].size == 8,
{
    let mut fields: Vec<FieldDesc> = Vec::new();
    fields.push(FieldDesc { name: gm_field_state_dlc_bytes(), size: 4 });
    fields.push(FieldDesc { name: gm_field_points_bytes(), size: 4 });
    fields.push(FieldDesc { name: gm_field_deaths_bytes(), size: 4 });
    fields.push(FieldDesc { name: gm_field_scene_bytes(), size: 8 });
    RecordDesc {
        class_name: gm_class_name_bytes(),
        name_space: empty_name_bytes(),
        fields,
    }
}

/// The timer record, shared by both releases.
pub fn timer_desc() -> (r: RecordDesc)
    ensures
        r.class_name@ == timer_class_name(),
        r.name_space@ == empty_name(),
        r.fields@.len() == 4,
        r.fields@[0].name@ == timer_field_level_time() && r.fields@[0].size == 4,
        r.fields@[1].name@ == timer_field_vector() && r.fields@[1].size == 12,
        r.fields@[2].name@ == timer_field_stopped() && r.fields@[2].size == 1,
        r.fields@[3].name@ == timer_field_character() && r.fields@[3].size == 4,
{
    let mut fields: Vec<FieldDesc> = Vec::new();
    fields.push(FieldDesc { name: timer_field_level_time_bytes(), size: 4 });
    fields.push(FieldDesc { name: timer_field_vector_bytes(), size: 12 });
    fields.push(FieldDesc { name: timer_field_stopped_bytes(), size: 1 });
    fields.push(FieldDesc { name: timer_field_character_bytes(), size: 4 });
    RecordDesc {
        class_name: timer_class_name_bytes(),
        name_space: empty_name_bytes(),
        fields,
    }
}

/// The static singleton field holding the timer instance, which differs
/// between the two releases.
pub fn timer_instance_field(is_dlc: bool) -> (r: Vec<u8>)
    ensures
        r@ == if is_dlc {
            instance_field_backing()
        } else {
            instance_field_plain()
        },
{
    if is_dlc {
        instance_field_backing_bytes()
    } else {
        instance_field_plain_bytes()
    }
}

/// The declared field names of the base release's game-manager record.
pub open spec fn gm_field_names() -> Seq<Seq<u8>> {
    seq![gm_field_state(), gm_field_points(), gm_field_deaths(), gm_field_level()]
}

/// The declared field names of the expanded release's game-manager record.
pub open spec fn gm_dlc_field_names() -> Seq<Seq<u8>> {
    seq![gm_field_state_dlc(), gm_field_points(), gm_field_deaths(), gm_field_scene()]
}

/// The declared field names of the timer record.
pub open spec fn timer_field_names() -> Seq<Seq<u8>> {
    seq![
        timer_field_level_time(),
        timer_field_vector(),
        timer_field_stopped(),
        timer_field_character(),
    ]
}

/// The image's enumeration succeeded and none of its classes carries this
/// name in the empty namespace.
pub open spec fn no_class_named(mem: ProcessMemory, image: MonoImage, name: Seq<u8>) -> bool {
    match image {
        MonoImage::Legacy { class_cache } => bucket_chains(
            mem,
            class_cache.table.addr,
            0,
            class_cache.size as int,
            LEGACY_CLASS_DEF_SIZE as int,
            264,
            CHAIN_CAP as nat,
        ) matches Ok(c) && forall|k: int|
            0 <= k < c.len() ==> !class_entry_named(
                mem,
                #[trigger] c[k] as int,
                Abi::Legacy,
                name,
                empty_name(),
            ),
        MonoImage::Il2cpp { type_count, type_defs } => aot_class_addrs(
            mem,
            type_defs.addr,
            0,
            type_count as int,
        ) matches Ok(c) && forall|k: int|
            0 <= k < c.len() ==> !class_entry_named(
                mem,
                #[trigger] c[k] as int,
                Abi::Il2cpp,
                name,
                empty_name(),
            ),
    }
}

/// The game-manager binding: which of the two class layouts resolved, with
/// its record binding.
#[derive(Debug)]
pub enum GameManagerBinding {
    Original(RecordBinding),
    Dlc(RecordBinding),
}

impl GameManagerBinding {
    /// The binding's shape: four fields of the declared sizes.
    pub open spec fn wf(self) -> bool {
        match self {
            GameManagerBinding::Original(b) => b.fields@.len() == 4 && b.fields@[0].size == 4
                && b.fields@[1].size == 4 && b.fields@[2].size == 4 && b.fields@[3].size == 4,
            GameManagerBinding::Dlc(b) => b.fields@.len() == 4 && b.fields@[0].size == 4
                && b.fields@[1].size == 4 && b.fields@[2].size == 4 && b.fields@[3].size == 8,
        }
    }

    /// The class the binding resolved against.
    pub fn class(&self) -> (r: MonoClass)
        ensures
            r == match self {
                GameManagerBinding::Original(b) => b.class,
                GameManagerBinding::Dlc(b) => b.class,
            },
    {
        match self {
            GameManagerBinding::Original(b) => b.class,
            GameManagerBinding::Dlc(b) => b.class,
        }
    }

    /// Whether the expanded release's layout is the one bound.
    #[must_use]
    pub fn is_dlc(&self) -> (r: bool)
        ensures
            r == (self matches GameManagerBinding::Dlc(_)),
    {
        matches!(self, GameManagerBinding::Dlc(..))
    }

    /// Binds the game manager, detecting which class layout the target
    /// carries: the base release's layout is tried first, and the expanded
    /// release's layout is bound only where the base one cannot be.
    pub fn bind(image: &MonoImage, mem: &ProcessMemory) -> (r: Result<
        GameManagerBinding,
        BindFailure,
    >)
        ensures
            r matches Ok(gb) ==> gb.wf(),
            r matches Ok(GameManagerBinding::Original(b)) ==> class_named(
                *mem,
                b.class,
                gm_class_name(),
                empty_name(),
            ) && binding_sound(*mem, b) && b.fields@[0].name@ == gm_field_state()
                && b.fields@[1].name@ == gm_field_points() && b.fields@[2].name@
                == gm_field_deaths() && b.fields@[3].name@ == gm_field_level(),
            r matches Ok(GameManagerBinding::Dlc(b)) ==> class_named(
                *mem,
                b.class,
                gm_class_name(),
                empty_name(),
            ) && binding_sound(*mem, b) && b.fields@[0].name@ == gm_field_state_dlc()
                && b.fields@[1].name@ == gm_field_points() && b.fields@[2].name@
                == gm_field_deaths() && b.fields@[3].name@ == gm_field_scene(),
            r matches Err(BindFailure::ClassNotFound) ==> no_class_named(
                *mem,
                *image,
                gm_class_name(),
            ),
            (bind_guaranteed(*mem, *image, gm_class_name(), empty_name(), gm_field_names())
                || bind_guaranteed(
                *mem,
                *image,
                gm_class_name(),
                empty_name(),
                gm_dlc_field_names(),
            )) ==> r is Ok,
    {
        let desc = game_manager_desc();
        proof {
            assert(field_names_of(desc) =~= gm_field_names());
        }
        let first = bind(&desc, image, mem);
        let ghost first_ok = first is Ok;
        match first {
            Ok(b) => {
                return Ok(GameManagerBinding::Original(b));
            },
            Err(_) => {},
        }
        let desc_dlc = game_manager_desc_dlc();
        proof {
            assert(field_names_of(desc_dlc) =~= gm_dlc_field_names());
        }
        match bind(&desc_dlc, image, mem) {
            Ok(b) => Ok(GameManagerBinding::Dlc(b)),
            Err(e) => {
                proof {
                    if bind_guaranteed(
                        *mem,
                        *image,
                        gm_class_name(),
                        empty_name(),
                        gm_field_names(),
                    ) {
                        assert(first_ok);
                        assert(false);
                    }
                }
                Err(e)
            },
        }
    }

    /// Decodes one game-manager sample through the bound layout.  The
    /// scene string of the expanded layout decays to empty where the
    /// string object is unreadable; everything else fails the decode.
    pub fn read(&self, mem: &ProcessMemory, instance: Ptr<()>) -> (r: Result<
        GameManager,
        DecodeFailure,
    >)
        requires
            self.wf(),
        ensures
            self matches GameManagerBinding::Original(b) ==> {
                &&& (r is Ok <==> snapshot_available(*mem, b.class, instance) && forall|k: int|
                    0 <= k < b.fields@.len() ==> (#[trigger] b.fields@[k]).offset
                        + b.fields@[k].size <= b.class.instance_size)
                &&& (r matches Ok(g) ==> g.game_state as int == to_i32(
                    mem.u32_at(instance.addr + b.fields@[0].offset),
                ) && g.points as int == to_i32(mem.u32_at(instance.addr + b.fields@[1].offset))
                    && g.deaths as int == to_i32(mem.u32_at(instance.addr + b.fields@[2].offset))
                    && (g.level_or_scene matches LevelOrScene::Level(l) && l as int == to_i32(
                    mem.u32_at(instance.addr + b.fields@[3].offset),
                )))
            },
            self matches GameManagerBinding::Dlc(b) ==> {
                &&& (r is Ok <==> snapshot_available(*mem, b.class, instance) && forall|k: int|
                    0 <= k < b.fields@.len() ==> (#[trigger] b.fields@[k]).offset
                        + b.fields@[k].size <= b.class.instance_size)
                &&& (r matches Ok(g) ==> g.game_state as int == to_i32(
                    mem.u32_at(instance.addr + b.fields@[0].offset),
                ) && g.points as int == to_i32(mem.u32_at(instance.addr + b.fields@[1].offset))
                    && g.deaths as int == to_i32(mem.u32_at(instance.addr + b.fields@[2].offset))
                    && (g.level_or_scene matches LevelOrScene::Scene(s) && s@ == scene_or_empty(
                    *mem,
                    mem.u64_at(instance.addr + b.fields@[3].offset),
                )))
            },
    {
        let b = match self {
            GameManagerBinding::Original(b) => b,
            GameManagerBinding::Dlc(b) => b,
        };
        let rec = match decode(b, instance, mem) {
            Ok(rec) => rec,
            Err(e) => {
                return Err(e);
            },
        };
        proof {
            lemma_bytes4_u32(
                *mem,
                instance.addr + b.fields@[0].offset,
                (rec.values@[0])@,
            );
            lemma_bytes4_u32(
                *mem,
                instance.addr + b.fields@[1].offset,
                (rec.values@[1])@,
            );
            lemma_bytes4_u32(
                *mem,
                instance.addr + b.fields@[2].offset,
                (rec.values@[2])@,
            );
        }
        let game_state = i32_from_u32(vec_u32_at(&rec.values[0], 0));
        let points = i32_from_u32(vec_u32_at(&rec.values[1], 0));
        let deaths = i32_from_u32(vec_u32_at(&rec.values[2], 0));
        let level_or_scene = match self {
            GameManagerBinding::Original(_) => {
                proof {
                    lemma_bytes4_u32(
                        *mem,
                        instance.addr + b.fields@[3].offset,
                        (rec.values@[3])@,
                    );
                }
                LevelOrScene::Level(i32_from_u32(vec_u32_at(&rec.values[3], 0)))
            },
            GameManagerBinding::Dlc(_) => {
                proof {
                    lemma_bytes8_u64(
                        *mem,
                        instance.addr + b.fields@[3].offset,
                        (rec.values@[3])@,
                    );
                }
                let scene_ptr = vec_u64_at(&rec.values[3], 0);
                match read_string(mem, Ptr::new(scene_ptr)) {
                    Some(v) => LevelOrScene::Scene(v),
                    None => LevelOrScene::Scene(Vec::new()),
                }
            },
        };
        Ok(GameManager { game_state, points, deaths, level_or_scene })
    }
}

/// The timer's decoded sample.  The float-valued fields carry their raw
/// bit patterns; interpreting them as floating point is the host's
/// business.
#[derive(Debug)]
pub struct Timer {
    pub level_time_bits: u32,
    pub minutes_bits: u32,
    pub seconds_bits: u32,
    pub hundredths_bits: u32,
    pub timer_stopped: bool,
    pub character: u32,
}

impl Timer {
    /// The display name of the selected character.
    pub fn character(&self) -> (r: &'static str)
        ensures
            self.character == 0 ==> r@ == "Hana"@,
            self.character == 1 ==> r@ == "Toree"@,
            self.character == 2 ==> r@ == "Toukie"@,
            self.character == 3 ==> r@ == "Accel"@,
            self.character > 3 ==> r@ == "Unknown"@,
    {
        match self.character {
            0 => "Hana",
            1 => "Toree",
            2 => "Toukie",
            3 => "Accel",
            _ => "Unknown",
        }
    }
}

/// The timer class's resolved record binding.
#[derive(Debug)]
pub struct TimerBinding {
    pub record: RecordBinding,
}

impl TimerBinding {
    /// The binding's shape: four fields of the declared sizes.
    pub open spec fn wf(self) -> bool {
        &&& self.record.fields@.len() == 4
        &&& self.record.fields@[0].size == 4
        &&& self.record.fields@[1].size == 12
        &&& self.record.fields@[2].size == 1
        &&& self.record.fields@[3].size == 4
    }

    /// Binds the timer class.
    pub fn bind(image: &MonoImage, mem: &ProcessMemory) -> (r: Result<TimerBinding, BindFailure>)
        ensures
            r matches Ok(tb) ==> tb.wf() && class_named(
                *mem,
                tb.record.class,
                timer_class_name(),
                empty_name(),
            ) && binding_sound(*mem, tb.record) && tb.record.fields@[0].name@
                == timer_field_level_time() && tb.record.fields@[1].name@ == timer_field_vector()
                && tb.record.fields@[2].name@ == timer_field_stopped()
                && tb.record.fields@[3].name@ == timer_field_character(),
            r matches Err(BindFailure::ClassNotFound) ==> no_class_named(
                *mem,
                *image,
                timer_class_name(),
            ),
            bind_guaranteed(*mem, *image, timer_class_name(), empty_name(), timer_field_names())
                ==> r is Ok,
    {
        let desc = timer_desc();
        proof {
            assert(field_names_of(desc) =~= timer_field_names());
        }
        match bind(&desc, image, mem) {
            Ok(b) => Ok(TimerBinding { record: b }),
            Err(e) => Err(e),
        }
    }

    /// Decodes one timer sample through the binding.
    pub fn read(&self, mem: &ProcessMemory, instance: Ptr<()>) -> (r: Result<Timer, DecodeFailure>)
        requires
            self.wf(),
        ensures
            r is Ok <==> snapshot_available(*mem, self.record.class, instance) && forall|k: int|
                0 <= k < self.record.fields@.len() ==> (#[trigger] self.record.fields@[k]).offset
                    + self.record.fields@[k].size <= self.record.class.instance_size,
            r matches Ok(t) ==> t.level_time_bits as int == mem.u32_at(
                instance.addr + self.record.fields@[0].offset,
            ) && t.minutes_bits as int == mem.u32_at(instance.addr + self.record.fields@[1].offset)
                && t.seconds_bits as int == mem.u32_at(
                instance.addr + self.record.fields@[1].offset + 4,
            ) && t.hundredths_bits as int == mem.u32_at(
                instance.addr + self.record.fields@[1].offset + 8,
            ) && t.timer_stopped == (mem.byte_at(instance.addr + self.record.fields@[2].offset)
                != 0) && t.character as int == mem.u32_at(
                instance.addr + self.record.fields@[3].offset,
            ),
    {
        let rec = match decode(&self.record, instance, mem) {
            Ok(rec) => rec,
            Err(e) => {
                return Err(e);
            },
        };
        let b = &self.record;
        proof {
            lemma_bytes4_u32(*mem, instance.addr + b.fields@[0].offset, (rec.values@[0])@);
            lemma_bytes12_parts(*mem, instance.addr + b.fields@[1].offset, (rec.values@[1])@);
            lemma_bytes4_u32(*mem, instance.addr + b.fields@[3].offset, (rec.values@[3])@);
            assert((rec.values@[2])@[0] == mem.byte_at(instance.addr + b.fields@[2].offset));
        }
        let level_time_bits = vec_u32_at(&rec.values[0], 0);
        let minutes_bits = vec_u32_at(&rec.values[1], 0);
        let seconds_bits = vec_u32_at(&rec.values[1], 4);
        let hundredths_bits = vec_u32_at(&rec.values[1], 8);
        let stopped_byte = rec.values[2][0];
        let character = vec_u32_at(&rec.values[3], 0);
        Ok(
            Timer {
                level_time_bits,
                minutes_bits,
                seconds_bits,
                hundredths_bits,
                timer_stopped: stopped_byte != 0,
                character,
            },
        )
    }
}

/// The digit-vector field's twelve snapshot bytes decode as three
/// little-endian 32-bit values.
proof fn lemma_bytes12_parts(mem: ProcessMemory, a: int, s: Seq<u8>)
    requires
        s == mem.bytes_at(a, 12),
    ensures
        s[0] + 0x100 * s[1] + 0x1_0000 * s[2] + 0x100_0000 * s[3] == mem.u32_at(a),
        s[4] + 0x100 * s[5] + 0x1_0000 * s[6] + 0x100_0000 * s[7] == mem.u32_at(a + 4),
        s[8] + 0x100 * s[9] + 0x1_0000 * s[10] + 0x100_0000 * s[11] == mem.u32_at(a + 8),
{
    assert forall|j: int| 0 <= j < 12 implies #[trigger] s[j] == mem.byte_at(a + j) by {
        assert(s[j] == mem.bytes_at(a, 12)[j]);
    }
}

/// Everything the polling loop needs per tick, resolved once at attach
/// time: the two record bindings and the two singleton instances.
#[derive(Debug)]
pub struct GameInfo {
    pub timer_instance: Ptr<()>,
    pub game_manager_instance: Ptr<()>,
    pub timer_class: TimerBinding,
    pub game_manager_class: GameManagerBinding,
}

} // verus!
