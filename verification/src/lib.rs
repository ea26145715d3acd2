pub mod anim_stats;
pub mod animation_time;
pub mod camera;
pub mod clip;
pub mod clip_drive;
pub mod clip_edit;
pub mod clip_sense;
pub mod clip_sync;
pub mod clip_track;
pub mod collisions;
pub mod components;
pub mod contacts;
pub mod counts;
pub mod draw;
pub mod entity;
pub mod environment;
pub mod events;
pub mod family_sense;
pub mod frame_sense;
pub mod gizmo;
pub mod gpu_baseline;
pub mod hierarchy;
pub mod ibl;
pub mod import_sense;
pub mod info;
pub mod input;
pub mod light_maps;
pub mod light_sense;
pub mod material_registry;
pub mod mesh;
pub mod mesh_import;
pub mod mesh_preview;
pub mod mesh_registry;
pub mod mesh_sense;
pub mod motion;
pub mod motion_sense;
pub mod particle_counts;
pub mod particle_motion;
pub mod particles;
pub mod paths;
pub mod picking;
pub mod picking_sense;
pub mod pose_sense;
pub mod preview_assets;
pub mod preview_sense;
pub mod profiler;
pub mod rate_sense;
pub mod scalar;
pub mod scene;
pub mod scene_deps;
pub mod scene_places;
pub mod scene_world;
pub mod skeleton;
pub mod skeleton_pose;
pub mod small_list;
pub mod spatial;
pub mod spatial_query;
pub mod sprite;
pub mod sprite_advance;
pub mod sprite_loop;
pub mod sprite_slot;
pub mod sprite_soa;
pub mod sprite_systems;
pub mod sprite_timeline;
pub mod sprite_turns;
pub mod stopwatch;
pub mod surface_sense;
pub mod text;
pub mod text_map;
pub mod text_order;
pub mod track_sense;
pub mod transform;
pub mod vectors;
pub mod view_sense;
pub mod world_edit;
pub mod world_sense;
