use vstd::prelude::*;

verus! {

/// A stored pipeline's listing entry.
pub struct PipelineMetadata {
    pub id: String,
    pub name: String,
    pub created_at: String,
    pub updated_at: String,
}

/// A training run's listing entry, with its annotations joined in.
pub struct RunMetadata {
    pub id: String,
    pub pipeline_name: String,
    pub status: String,
    pub started_at: String,
    pub completed_at: Option<String>,
    pub duration_ms: Option<i64>,
    pub hyperparameters: Option<String>,
    pub error_message: Option<String>,
    pub experiment_id: Option<String>,
    pub experiment_name: Option<String>,
    pub display_name: Option<String>,
    pub notes: Option<String>,
    pub tags: Option<Vec<String>>,
}

/// An experiment grouping runs.
pub struct Experiment {
    pub id: String,
    pub name: String,
    pub description: Option<String>,
    pub status: String,
    pub created_at: String,
    pub updated_at: String,
    pub run_count: Option<i64>,
}

/// A registered model.
pub struct ModelMetadata {
    pub id: String,
    pub name: String,
    pub description: Option<String>,
    pub created_at: String,
    pub updated_at: String,
    pub version_count: i64,
    pub latest_version: Option<i64>,
    pub production_version: Option<i64>,
}

/// One version of a registered model; the artifact itself lives at
/// `file_path`.
pub struct ModelVersion {
    pub id: String,
    pub model_id: String,
    pub version: i64,
    pub run_id: Option<String>,
    pub file_path: String,
    pub file_size: Option<i64>,
    pub format: String,
    pub stage: String,
    pub metrics_snapshot: Option<String>,
    pub feature_names: Option<String>,
    pub created_at: String,
    pub promoted_at: Option<String>,
    pub description: Option<String>,
    pub notes: Option<String>,
    pub onnx_path: Option<String>,
    pub coreml_path: Option<String>,
    pub n_features: Option<i64>,
    pub tags: Option<Vec<String>>,
}

/// A hyperparameter-tuning session over one run.
pub struct TuningSession {
    pub id: String,
    pub run_id: String,
    pub sampler: String,
    pub search_space: String,
    pub n_trials: Option<i32>,
    pub cv_folds: i32,
    pub scoring_metric: String,
    pub status: String,
    pub best_trial_id: Option<String>,
    pub created_at: String,
    pub completed_at: Option<String>,
}

/// Filters for the model-version listing.
pub struct ModelVersionFilters {
    pub search: Option<String>,
    pub stage: Option<String>,
    pub model_type: Option<String>,
    pub tags: Option<Vec<String>>,
}

/// Status of the similarity index for one pipeline.
pub struct RagStatus {
    pub pipeline_id: Option<String>,
    pub nodes_indexed: usize,
    pub embedding_model: Option<String>,
    pub last_indexed_at: Option<String>,
}

/// The version registration result handed back to the shell.
pub struct RegisterVersionResult {
    pub version_id: String,
    pub version: i64,
}

/// The detected Python language-server installation.
pub struct PyrightInfo {
    pub installed: bool,
    pub version: Option<String>,
    pub python_path: String,
}

/// The detected Python installation the workers are spawned with.
pub struct PythonInfo {
    pub path: String,
    pub version: String,
    pub is_bundled: bool,
}

/// Why the bundled Python installation was rejected.
pub enum PythonBundleError {
    Corrupted(String),
    BinaryMissing,
    NotExecutable,
    ImportFailed(String),
    ManifestInvalid,
    Io(String),
}

impl PythonBundleError {
    /// The failure as user-readable text.
    pub fn message(&self) -> (r: String)
        ensures
            r@ == match self {
                PythonBundleError::Corrupted(d) => "Bundle corrupted: "@ + d@,
                PythonBundleError::BinaryMissing => "Python binary missing"@,
                PythonBundleError::NotExecutable => "Python not executable"@,
                PythonBundleError::ImportFailed(d) => "Import verification failed: "@ + d@,
                PythonBundleError::ManifestInvalid => "Manifest missing or invalid"@,
                PythonBundleError::Io(d) => "IO error: "@ + d@,
            },
    {
        match self {
            PythonBundleError::Corrupted(d) => {
                let mut out = "Bundle corrupted: ".to_owned();
                out.append(d.as_str());
                out
            }
            PythonBundleError::BinaryMissing => "Python binary missing".to_owned(),
            PythonBundleError::NotExecutable => "Python not executable".to_owned(),
            PythonBundleError::ImportFailed(d) => {
                let mut out = "Import verification failed: ".to_owned();
                out.append(d.as_str());
                out
            }
            PythonBundleError::ManifestInvalid => "Manifest missing or invalid".to_owned(),
            PythonBundleError::Io(d) => {
                let mut out = "IO error: ".to_owned();
                out.append(d.as_str());
                out
            }
        }
    }
}

/// A model available at the completion endpoint.
pub struct OllamaModel {
    pub name: String,
    pub modified_at: Option<String>,
    pub size: Option<u64>,
}

/// The model-serving server's spawn configuration.
pub struct HttpServerConfig {
    pub host: String,
    pub port: u16,
    pub use_onnx: bool,
    pub cors_origins: Option<Vec<String>>,
}

impl Default for HttpServerConfig {
    /// Loopback on port 8080, plain runtime, no cross-origin callers.
    fn default() -> (c: Self)
        ensures
            c.host@ == "127.0.0.1"@,
            c.port == 8080,
            !c.use_onnx,
            c.cors_origins is None,
    {
        HttpServerConfig {
            host: "127.0.0.1".to_owned(),
            port: 8080,
            use_onnx: false,
            cors_origins: None,
        }
    }
}

/// One example dataset shipped with the application.
pub struct ExampleDataset {
    pub id: String,
    pub name: String,
    pub description: String,
    pub task_type: String,
    pub target_column: String,
    pub recommended_model: String,
}

/// The example datasets on offer: a classification set and a
/// regression set.
pub fn list_example_datasets() -> (r: Vec<ExampleDataset>)
    ensures
        r@.len() == 2,
        r@[0].id@ == "iris.csv"@,
        r@[0].task_type@ == "classification"@,
        r@[0].target_column@ == "species"@,
        r@[0].recommended_model@ == "random_forest"@,
        r@[1].id@ == "california_housing.csv"@,
        r@[1].task_type@ == "regression"@,
        r@[1].target_column@ == "MedHouseVal"@,
        r@[1].recommended_model@ == "linear_regression"@,
{
    let mut r: Vec<ExampleDataset> = Vec::new();
    r.push(ExampleDataset {
        id: "iris.csv".to_owned(),
        name: "Iris Classification".to_owned(),
        description: "Classify iris flowers (150 samples, 3 classes)".to_owned(),
        task_type: "classification".to_owned(),
        target_column: "species".to_owned(),
        recommended_model: "random_forest".to_owned(),
    });
    r.push(ExampleDataset {
        id: "california_housing.csv".to_owned(),
        name: "California Housing".to_owned(),
        description: "Predict house values (200 samples)".to_owned(),
        task_type: "regression".to_owned(),
        target_column: "MedHouseVal".to_owned(),
        recommended_model: "linear_regression".to_owned(),
    });
    r
}

} // verus!
