//! Reading and editing game objects.
//!
//! The hook brings pointers to everything that moved in a frame, not only to
//! players. An object counts as a player only if its method table is the one of
//! the class, and the class is learnt once from an object that proves itself: it
//! has the fields of a player and finds itself in the player lists of its own
//! screen.
//!
//! The lists of players and traps are built anew in every frame, because the
//! garbage collector moves objects. Only the address of the local player is kept
//! as a hint, and it is checked in full before each use.
pub mod camera;
pub mod field;
pub mod laws;
pub mod list;
pub mod player;
pub mod rect;
pub mod stats;
pub mod trap;

pub use self::camera::{camera, read_camera, transform_source, Affine, CameraView, Source};
pub use self::field::Point;
pub use self::player::{
    build_world, forget_cached_pointers, is_online, player_class, PlayerView, Tracker, World,
};
pub use self::rect::{
    unpack_color, Rect, RectF, Scalar, MAX_DIMENSION, MAX_TRAP_DIMENSION,
};
pub use self::stats::{
    read_live_stats, respawn, set_god_mode, set_gravity, set_infinite_jump, set_jump_height,
    set_position, set_speed, LiveStats,
};
pub use self::trap::{
    collect_traps, set_trap_flag, set_trap_speed, supports_boom_fields, trap_flag, trap_name,
    trap_speed, world_rect, TrapRef, MAX_TRAPS,
};
