//! The states that the manager and the settings editor show.

use crate::config::AiProvider;
use crate::json::text_eq;
use vstd::prelude::*;

verus! {

/// The screens of the pet manager.
#[derive(Debug, Clone, Copy, PartialEq, Eq, Structural)]
pub enum Screen {
    PetList,
    CreatePet,
    Generation,
}

/// The pages of the settings editor.
#[derive(Debug, Clone, Copy, PartialEq, Eq, Structural)]
pub enum Page {
    General,
    Appearance,
    Ai,
    Meshy,
    About,
}

/// How far the generation of a model has come.
#[derive(Debug, Clone, Copy, PartialEq, Eq, Structural)]
pub enum GenerationStatus {
    Submitting,
    Pending,
    InProgress,
    Downloading,
    Succeeded,
    Failed,
}

/// A generation under way.
pub struct GenerationState {
    pub status: GenerationStatus,
    pub task_id: Option<String>,
    pub progress: u32,
    pub model_data: Option<Vec<u8>>,
    pub thumbnail_data: Option<Vec<u8>>,
    pub error: Option<String>,
}

/// The answer to the creation of a task.
#[derive(Debug, Clone)]
pub struct CreateTaskResponse {
    pub result: String,
}

/// Where the generated model can be fetched.
#[derive(Debug, Clone)]
pub struct ModelUrls {
    pub glb: Option<String>,
}

/// The answer to a question after a task's status.
#[derive(Debug, Clone)]
pub struct TaskStatusResponse {
    pub status: String,
    pub model_urls: Option<ModelUrls>,
    pub thumbnail_url: Option<String>,
    pub progress: Option<u32>,
}

impl Default for Screen {
    fn default() -> (r: Self)
        ensures
            r == Screen::PetList,
    {
        Screen::PetList
    }
}

/// Whether a generation in this status is still under way.
pub open spec fn status_is_active(s: GenerationStatus) -> bool {
    s is Submitting || s is Pending || s is InProgress || s is Downloading
}

/// The status that a task's reported status stands for; `None` for one that
/// is not known, which changes nothing.
pub open spec fn status_of(reported: Seq<char>) -> Option<GenerationStatus> {
    if reported == "PENDING"@ {
        Some(GenerationStatus::Pending)
    } else if reported == "IN_PROGRESS"@ {
        Some(GenerationStatus::InProgress)
    } else if reported == "SUCCEEDED"@ {
        Some(GenerationStatus::Downloading)
    } else if reported == "FAILED"@ || reported == "EXPIRED"@ {
        Some(GenerationStatus::Failed)
    } else {
        None
    }
}

impl GenerationState {
    /// Whether the generation is still under way.
    pub fn is_active(&self) -> (r: bool)
        ensures
            r == status_is_active(self.status),
    {
        match self.status {
            GenerationStatus::Submitting => true,
            GenerationStatus::Pending => true,
            GenerationStatus::InProgress => true,
            GenerationStatus::Downloading => true,
            _ => false,
        }
    }

    /// Seconds between two questions after the task's status; `None` where
    /// none is asked.
    pub fn poll_interval_secs(&self) -> (r: Option<u64>)
        ensures
            r == match self.status {
                GenerationStatus::Pending => Some(5u64),
                GenerationStatus::InProgress => Some(3u64),
                _ => None,
            },
    {
        match self.status {
            GenerationStatus::Pending => Some(5),
            GenerationStatus::InProgress => Some(3),
            _ => None,
        }
    }
}

/// The status that a task's reported status stands for.
pub fn status_from_report(reported: &str) -> (r: Option<GenerationStatus>)
    ensures
        r == status_of(reported@),
{
    if text_eq(reported, "PENDING") {
        Some(GenerationStatus::Pending)
    } else if text_eq(reported, "IN_PROGRESS") {
        Some(GenerationStatus::InProgress)
    } else if text_eq(reported, "SUCCEEDED") {
        Some(GenerationStatus::Downloading)
    } else if text_eq(reported, "FAILED") || text_eq(reported, "EXPIRED") {
        Some(GenerationStatus::Failed)
    } else {
        None
    }
}

/// The name under which a provider is shown.
pub fn provider_label(provider: &AiProvider) -> (r: &'static str)
    ensures
        r@ == match *provider {
            AiProvider::OpenAi => "OpenAI"@,
            AiProvider::Anthropic => "Anthropic"@,
            AiProvider::Ollama => "Ollama"@,
            AiProvider::Custom => "Custom"@,
        },
{
    match provider {
        AiProvider::OpenAi => "OpenAI",
        AiProvider::Anthropic => "Anthropic",
        AiProvider::Ollama => "Ollama",
        AiProvider::Custom => "Custom",
    }
}

} // verus!
