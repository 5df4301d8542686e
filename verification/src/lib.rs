//! Game logic of GRIN: rewind histories and the time hierarchy, item firing and combos,
//! equipping and aiming, hitboxes and collision groups, material effect bookkeeping, and small
//! scene, query and input helpers, with verified contracts.

use vstd::prelude::*;

pub mod aim;
pub mod collision;
pub mod combo;
pub mod equip;
pub mod firing;
pub mod fist;
pub mod hierarchy;
pub mod hitbox;
pub mod keys;
pub mod map;
pub mod material;
pub mod query;
pub mod rewind;
pub mod scene;
pub mod sketch;
pub mod time_hierarchy;
pub mod timeline;
