//! Simulation kernel of an incremental arcade game: falling dust particles
//! are harvested by tower "attackers" that charge from a shared regenerating
//! power pool and discharge chain-lightning damage packets; destroyed dust
//! funds a shop of upgrade tracks.
//!
//! All quantities are integers. Energy, health and power are measured in
//! milli-units (1000 = one displayed unit); positions and speeds in
//! milli-pixels, time in milliseconds. Shop currency is whole dust data.
mod attacker;
mod camera;
mod damage;
mod dust;
mod dust_spawner;
mod geom;
mod health;
mod inventory;
mod power;
mod progress;
mod rng;
mod seqs;
mod shop;
mod utils;
mod visual_effect;
mod world;

pub use attacker::{Attacker, ChargeTimer, attacker, tick_attacker_timer, charge_attacker, attack_dust, has_dust_in_range};
pub use camera::{CursorEvents, CursorShape, cursor_icon_update, MouseTracker, update_mouse_tracker};
pub use damage::{DamageType, Damage, AttackDustEvent, generate_damage, nearest_dust, resolve_hit, resolve_one, deal_damage, deal_attack_event, LIGHTING_RANGE, MIN_CHAIN_ENERGY};
pub use dust::{Dust, DustState, dust, falling_dust, despawn_dust, cleanup_unalived_dust};
pub use dust_spawner::{DustSpawner, SetDustSpawnStats, dust_spawner, spawn_dust, DUST_LIMIT};
pub use geom::Pos;
pub use health::Health;
pub use inventory::Inventory;
pub use power::{Power, SetPowerStats, update_power_stats};
pub use progress::{CompleteTheGame, send_complete_event};
pub use rng::entropy_from_seed;
pub use shop::{ExpCosts, AdditiveEffect, MultiplicativeEffect, UpgradeItems, UpgradeEffect, EffectSeq, UpgradeTrack, Upgrades, ShopState, track_for};
pub use utils::map_range;
pub use visual_effect::{TempoEffect, AttackLine, DamageText, remove_tempo_effect};
pub use world::{PlayerStats, ChangePlayerStats, apply_player_stats, GameWorld, spawn_level};
