use vstd::prelude::*;

verus! {

/// Everything that can go wrong in the editor, as one flat taxonomy.
#[derive(Clone, Copy, Debug, PartialEq, Eq, Structural)]
pub enum AudioError {
    /// A parameter is outside its domain: a sample rate below 1000 Hz, no
    /// channels, or a threshold that is not in `[0, 1)`.
    InvalidInput,
    /// The sample count is not a whole number of frames.
    CorruptAudioData,
    /// No output device, a busy device, or no stream to act on.
    DeviceError,
    /// The container could not be decoded.
    LoadError,
    /// The container could not be written.
    SaveError,
    /// A job was submitted while another one was still running.
    JobBusy,
}

impl AudioError {
    /// The text of the message for each error.
    pub open spec fn message_text(self) -> Seq<char> {
        match self {
            AudioError::InvalidInput => "invalid input"@,
            AudioError::CorruptAudioData => "corrupt audio data"@,
            AudioError::DeviceError => "audio device error"@,
            AudioError::LoadError => "could not load audio"@,
            AudioError::SaveError => "could not save audio"@,
            AudioError::JobBusy => "a job is already running"@,
        }
    }

    /// One human-readable line for the error.
    pub fn message(&self) -> (text: String)
        ensures
            text@ == self.message_text(),
    {
        match self {
            AudioError::InvalidInput => "invalid input".to_owned(),
            AudioError::CorruptAudioData => "corrupt audio data".to_owned(),
            AudioError::DeviceError => "audio device error".to_owned(),
            AudioError::LoadError => "could not load audio".to_owned(),
            AudioError::SaveError => "could not save audio".to_owned(),
            AudioError::JobBusy => "a job is already running".to_owned(),
        }
    }
}

} // verus!
