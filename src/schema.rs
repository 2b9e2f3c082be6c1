//! The configuration schema. Real-valued fields have the type parameter `R`:
//! the library only carries them, and the caller picks the number type.
use vstd::prelude::*;

verus! {

/// The one dataset name that a configuration may name.
pub const ALLOWED_DATASET: &'static str = "COCO";

/// The suffix that a configuration file name must carry.
pub const CONFIG_SUFFIX: &'static str = ".toml";

/// The word that asks for one more point of an area.
pub const AFFIRMATIVE: &'static str = "yes";

/// Configuration settings for the whole platform.
#[derive(Debug, PartialEq)]
pub struct ManagerConfig<R> {
    pub test: bool,
    pub sauron_config: SauronConfig<R>,
    pub aircraft_properties: AircraftProperties<R>,
    pub coordinates: Coordinates<R>,
    pub commconfig: CommConfig,
}

/// Configuration of the vision model.
#[derive(Debug, PartialEq)]
pub struct SauronConfig<R> {
    pub model_path: String,
    pub input_size: i32,
    pub dataset_name: String,
    pub fov: (R, R),
    pub resolution: (i32, i32),
    pub untagged_image_folder: String,
    pub detection_image_folder: String,
    pub mapping_image_folder: String,
}

/// Physical properties of the aircraft.
#[derive(Debug, PartialEq)]
pub struct AircraftProperties<R> {
    pub turn_radius: R,
    pub velocity: R,
}

/// The coordinate sets used in competition.
#[derive(Debug, PartialEq)]
pub struct Coordinates<R> {
    pub waypoints: Vec<Point<R>>,
    pub mapping_area: Vec<Point<R>>,
    pub target_area: Vec<Point<R>>,
    pub flying_threshold: R,
    pub mapping_threshold: R,
}

/// A point in the plane.
#[derive(Debug, Clone, Copy, PartialEq)]
pub struct Point<R> {
    pub x: R,
    pub y: R,
}

/// Ports and addresses through which the processes talk.
#[derive(Debug, Clone, PartialEq, Eq)]
pub struct CommConfig {
    pub dad_gnc_port: i32,
    pub gnc_dad_port: i32,
    pub dad_sauron_port: i32,
    pub sauron_dad_port: i32,
    pub groundstation_ip: String,
    pub flightcomputer_ip: String,
}

pub open spec fn default_untagged_folder() -> Seq<char> {
    "/feonix-images/untagged"@
}

pub open spec fn default_detection_folder() -> Seq<char> {
    "/feonix-images/detection"@
}

pub open spec fn default_mapping_folder() -> Seq<char> {
    "/feonix-images/mapping"@
}

impl<R> SauronConfig<R> {
    /// The canonical model section, with the camera's field of view `fov`.
    pub fn default_with_fov(fov: (R, R)) -> (r: SauronConfig<R>)
        ensures
            r.model_path@ == "./sauron/data/yolov8n.onnx"@,
            r.input_size == 640,
            r.dataset_name@ == ALLOWED_DATASET@,
            r.fov == fov,
            r.resolution == (4096i32, 2160i32),
            r.untagged_image_folder@ == default_untagged_folder(),
            r.detection_image_folder@ == default_detection_folder(),
            r.mapping_image_folder@ == default_mapping_folder(),
    {
        SauronConfig {
            model_path: String::from_str("./sauron/data/yolov8n.onnx"),
            input_size: 640,
            dataset_name: String::from_str(ALLOWED_DATASET),
            fov,
            resolution: (4096, 2160),
            untagged_image_folder: String::from_str("/feonix-images/untagged"),
            detection_image_folder: String::from_str("/feonix-images/detection"),
            mapping_image_folder: String::from_str("/feonix-images/mapping"),
        }
    }
}

} // verus!
