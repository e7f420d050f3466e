use vstd::prelude::*;
use crate::project::clone_opt_string;

verus! {

/// Options of a recognition request.
#[derive(Debug)]
pub struct OCROptions {
    pub source_language: Option<String>,
}

impl Default for OCROptions {
    /// No source language.
    fn default() -> (o: Self)
        ensures
            o.source_language is None,
    {
        OCROptions { source_language: None }
    }
}

/// Options of a translation request.
#[derive(Debug)]
pub struct TranslationOptions {
    pub source_language: Option<String>,
    pub target_language: String,
}

/// An OCR service as a plugin registers it.
#[derive(Debug)]
pub struct OCRServiceInfo {
    pub id: String,
    pub name: String,
    pub version: String,
    pub supported_languages: Vec<String>,
    pub supported_image_formats: Vec<String>,
    pub max_image_size: Option<usize>,
}

/// A translation service as a plugin registers it.
#[derive(Debug)]
pub struct TranslationServiceInfo {
    pub id: String,
    pub name: String,
    pub version: String,
    pub source_languages: Vec<String>,
    pub target_languages: Vec<String>,
    pub supports_auto_detect: bool,
    pub max_text_length: Option<usize>,
}

/// A service a plugin registers.
#[derive(Debug)]
pub enum BunnyServiceRegistration {
    OCR(OCRServiceInfo),
    Translation(TranslationServiceInfo),
}

/// What a service-providing plugin reports.
#[derive(Debug)]
pub enum BunnyProviderEvent {
    ServiceRegistered(BunnyServiceRegistration),
    ServiceUnregistered { service_id: String },
    ProcessingStarted { task_id: String, service_id: String },
    ProcessingProgress { task_id: String, progress: u8 },
    ProcessingCompleted { task_id: String, success: bool },
}

/// Kinds of plugin configuration fields.
#[derive(Debug, Clone, Copy, PartialEq, Eq, Structural)]
pub enum ConfigFieldType {
    Text,
    Password,
    Number,
    Select,
    Switch,
    Textarea,
}

/// A choice of a select field.
#[derive(Debug)]
pub struct SelectOption {
    pub value: String,
    pub label: String,
}

/// What a plugin says about itself.
#[derive(Debug)]
pub struct PluginMetadata {
    pub id: String,
    pub name: String,
    pub version: String,
    pub description: String,
    pub author: String,
    pub subscribed_events: Vec<String>,
}

/// Severity of a plugin log message.
#[derive(Debug, Clone, Copy, PartialEq, Eq, Structural)]
pub enum LogLevel {
    Debug,
    Info,
    Warn,
    Error,
}

impl LogLevel {
    /// The number the host knows the level by (0 to 3, least severe first).
    pub fn code(&self) -> (r: u32)
        ensures
            r == (match *self {
                LogLevel::Debug => 0u32,
                LogLevel::Info => 1u32,
                LogLevel::Warn => 2u32,
                LogLevel::Error => 3u32,
            }),
    {
        match self {
            LogLevel::Debug => 0,
            LogLevel::Info => 1,
            LogLevel::Warn => 2,
            LogLevel::Error => 3,
        }
    }
}

/// The identity a plugin calls the host's services with.
#[derive(Debug)]
pub struct PluginContext {
    pub plugin_id: String,
}

impl Clone for PluginContext {
    fn clone(&self) -> (r: Self)
        ensures
            r.plugin_id@ == self.plugin_id@,
    {
        PluginContext { plugin_id: self.plugin_id.clone() }
    }
}

impl PluginContext {
    /// The context of plugin `plugin_id`.
    pub fn new(plugin_id: String) -> (c: Self)
        ensures
            c.plugin_id@ == plugin_id@,
    {
        PluginContext { plugin_id }
    }
}

/// Access to the host's marker service.
pub struct MarkerServiceProxy {
    pub context: PluginContext,
}

impl MarkerServiceProxy {
    /// The proxy for a plugin.
    pub fn new(context: PluginContext) -> (p: Self)
        ensures
            p.context == context,
    {
        MarkerServiceProxy { context }
    }
}

/// Access to the host's project service.
pub struct ProjectServiceProxy {
    pub context: PluginContext,
}

impl ProjectServiceProxy {
    /// The proxy for a plugin.
    pub fn new(context: PluginContext) -> (p: Self)
        ensures
            p.context == context,
    {
        ProjectServiceProxy { context }
    }
}

/// Access to the host's image service.
pub struct ImageServiceProxy {
    pub context: PluginContext,
}

impl ImageServiceProxy {
    /// The proxy for a plugin.
    pub fn new(context: PluginContext) -> (p: Self)
        ensures
            p.context == context,
    {
        ImageServiceProxy { context }
    }
}

/// Access to the host's statistics service.
pub struct StatsServiceProxy {
    pub context: PluginContext,
}

impl StatsServiceProxy {
    /// The proxy for a plugin.
    pub fn new(context: PluginContext) -> (p: Self)
        ensures
            p.context == context,
    {
        StatsServiceProxy { context }
    }
}

/// Hands out the service proxies of a plugin.
pub struct ServiceProxyManager {
    pub context: PluginContext,
}

impl ServiceProxyManager {
    /// The manager for a plugin.
    pub fn new(context: PluginContext) -> (m: Self)
        ensures
            m.context == context,
    {
        ServiceProxyManager { context }
    }

    /// The marker service proxy, for the same plugin.
    pub fn markers(&self) -> (p: MarkerServiceProxy)
        ensures
            p.context.plugin_id@ == self.context.plugin_id@,
    {
        MarkerServiceProxy::new(self.context.clone())
    }

    /// The project service proxy, for the same plugin.
    pub fn project(&self) -> (p: ProjectServiceProxy)
        ensures
            p.context.plugin_id@ == self.context.plugin_id@,
    {
        ProjectServiceProxy::new(self.context.clone())
    }

    /// The image service proxy, for the same plugin.
    pub fn images(&self) -> (p: ImageServiceProxy)
        ensures
            p.context.plugin_id@ == self.context.plugin_id@,
    {
        ImageServiceProxy::new(self.context.clone())
    }

    /// The statistics service proxy, for the same plugin.
    pub fn stats(&self) -> (p: StatsServiceProxy)
        ensures
            p.context.plugin_id@ == self.context.plugin_id@,
    {
        StatsServiceProxy::new(self.context.clone())
    }
}

/// Where an image's bytes are, as the host describes it to plugins.
#[derive(Debug)]
pub enum ImageData {
    FilePath { path: String },
    Binary { data: Vec<u8>, format: String },
}

/// A request to create a project.
#[derive(Debug)]
pub struct CreateProjectRequest {
    pub name: String,
    pub description: Option<String>,
}

/// A request to add an image.
#[derive(Debug)]
pub struct AddImageRequest {
    pub path: String,
    pub name: String,
}

/// Counts over a project, as the host reports them to plugins.
#[derive(Debug, Clone, Copy, PartialEq, Eq, Structural)]
pub struct ProjectStats {
    pub total_images: usize,
    pub total_markers: usize,
    pub translated_markers: usize,
    pub untranslated_markers: usize,
}

/// A project as the host describes it to plugins.
#[derive(Debug)]
pub struct Project {
    pub id: String,
    pub name: String,
    pub description: String,
    pub created_at: String,
    pub updated_at: String,
}

/// An image as the host describes it to plugins.
#[derive(Debug)]
pub struct Image {
    pub id: String,
    pub path: String,
    pub name: String,
    pub width: u32,
    pub height: u32,
}

/// What a stored plugin file is known by.
#[derive(Debug)]
pub struct StoredPluginInfo {
    pub id: String,
    pub filename: String,
    pub upload_time: u64,
}

/// Where uploaded plugins are kept.
pub struct PluginStorage {
    pub storage_dir: String,
}

impl PluginStorage {
    /// The directory the plugins are kept in.
    pub fn get_storage_dir(&self) -> (r: &str)
        ensures
            r@ == self.storage_dir@,
    {
        self.storage_dir.as_str()
    }
}

} // verus!
