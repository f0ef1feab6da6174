//! Game rules of a small real-time strategy game about mice and cheese: units, buildings,
//! abilities, command queues, player controls, the economy and the bookkeeping behind rendering,
//! stated and proved with Verus. Positions and entity handles are type parameters, so the rules
//! hold whatever the host uses for them.

pub mod entities;

pub mod abilities;
pub mod ui;
pub mod commands;
pub mod mouse;
pub mod economy;
pub mod controls;
pub mod objectives;
pub mod menus;
pub mod resources;
pub mod combat;
pub mod buffers;
pub mod navmesh;
pub mod scene;
pub mod ai;
pub mod model_files;
