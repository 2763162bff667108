use vstd::prelude::*;

use crate::modes::Mode;
use crate::strings::str_eq;
use crate::{Count, TermUnit};

verus! {

/// A terminal color as the theme holds it.
#[derive(Debug, Clone, Copy, PartialEq, Eq, Structural)]
pub struct Rgb {
    pub r: u8,
    pub g: u8,
    pub b: u8,
}

/// The three colors the session paints with: the selected word, the wrong
/// characters and the right ones; an unset entry falls back to the default.
#[derive(Debug, Clone, Copy, PartialEq, Eq, Structural)]
pub struct Theme {
    pub selected: Option<Rgb>,
    pub wrong: Option<Rgb>,
    pub right: Option<Rgb>,
}

impl Theme {
    /// The stock theme: grey for the selected word, light red for wrong
    /// characters, green for right ones.
    pub fn default() -> (r: Theme)
        ensures
            r.selected == Some(Rgb { r: 128u8, g: 128u8, b: 128u8 }),
            r.wrong == Some(Rgb { r: 255u8, g: 128u8, b: 128u8 }),
            r.right == Some(Rgb { r: 64u8, g: 255u8, b: 64u8 }),
    {
        Theme {
            selected: Some(Rgb { r: 128, g: 128, b: 128 }),
            wrong: Some(Rgb { r: 255, g: 128, b: 128 }),
            right: Some(Rgb { r: 64, g: 255, b: 64 }),
        }
    }

    pub fn get_selected(&self) -> (r: Rgb)
        ensures
            self.selected matches Some(c) ==> r == c,
            self.selected is None ==> r == (Rgb { r: 128u8, g: 128u8, b: 128u8 }),
    {
        match self.selected {
            Some(c) => c,
            None => Rgb { r: 128, g: 128, b: 128 },
        }
    }

    pub fn get_wrong(&self) -> (r: Rgb)
        ensures
            self.wrong matches Some(c) ==> r == c,
            self.wrong is None ==> r == (Rgb { r: 255u8, g: 128u8, b: 128u8 }),
    {
        match self.wrong {
            Some(c) => c,
            None => Rgb { r: 255, g: 128, b: 128 },
        }
    }

    pub fn get_right(&self) -> (r: Rgb)
        ensures
            self.right matches Some(c) ==> r == c,
            self.right is None ==> r == (Rgb { r: 64u8, g: 255u8, b: 64u8 }),
    {
        match self.right {
            Some(c) => c,
            None => Rgb { r: 64, g: 255, b: 64 },
        }
    }
}

/// Why a configuration value was rejected.
#[derive(Debug, Clone, Copy, PartialEq, Eq, Structural)]
pub enum FieldError {
    InvalidMode,
    InvalidFile,
    ZeroNotAllowed,
    NotAPositiveNumber,
}

impl FieldError {
    /// What went wrong, in words.
    pub fn error_msg(&self) -> (r: String)
        ensures
            *self == FieldError::InvalidMode ==> r@ == "invalid mode"@,
            *self == FieldError::InvalidFile ==> r@ == "invalid file"@,
            *self == FieldError::ZeroNotAllowed ==> r@ == "zero not allowed"@,
            *self == FieldError::NotAPositiveNumber ==> r@ == "invalid or negative number"@,
    {
        match self {
            FieldError::InvalidMode => "invalid mode".to_owned(),
            FieldError::InvalidFile => "invalid file".to_owned(),
            FieldError::ZeroNotAllowed => "zero not allowed".to_owned(),
            FieldError::NotAPositiveNumber => "invalid or negative number".to_owned(),
        }
    }

    /// What would have been accepted, in words.
    pub fn expecting(&self) -> (r: String)
        ensures
            *self == FieldError::InvalidMode ==> r@ == "a valid mode among: "@
                + crate::cli::spec_all_modes_str(),
            *self == FieldError::InvalidFile ==> r@ == "a valid file"@,
            *self == FieldError::ZeroNotAllowed ==> r@ == "a number greater than 0"@,
            *self == FieldError::NotAPositiveNumber ==> r@ == "a valid positive number"@,
    {
        match self {
            FieldError::InvalidMode => {
                let mut msg = "a valid mode among: ".to_owned();
                let modes = crate::cli::all_modes_str();
                msg.append(modes.as_str());
                msg
            },
            FieldError::InvalidFile => "a valid file".to_owned(),
            FieldError::ZeroNotAllowed => "a number greater than 0".to_owned(),
            FieldError::NotAPositiveNumber => "a valid positive number".to_owned(),
        }
    }
}

/// A validated mode tag: always one of the known source kinds.
#[derive(Debug, Clone)]
pub struct ModeField {
    pub field: String,
}

impl ModeField {
    /// Accepts exactly the known mode tags.
    pub fn new(s: &str) -> (r: Result<ModeField, FieldError>)
        ensures
            r is Ok <==> (s@ == "file"@ || s@ == "dictionary"@),
            r matches Ok(m) ==> m.field@ == s@,
            r is Err ==> r == Result::<ModeField, FieldError>::Err(FieldError::InvalidMode),
    {
        if Mode::valid_str(s) {
            Ok(ModeField { field: s.to_owned() })
        } else {
            Err(FieldError::InvalidMode)
        }
    }

    /// The tag as text.
    pub fn to_string(&self) -> (r: String)
        ensures
            r@ == self.field@,
    {
        self.field.clone()
    }
}

/// A configured file or dictionary name, as given.
#[derive(Debug, Clone)]
pub struct FileField {
    pub field: String,
}

impl FileField {
    /// Wraps a resource name; whether it exists on disk is the caller's
    /// affair, checked where the file is read.
    pub fn new(s: &str) -> (r: FileField)
        ensures
            r.field@ == s@,
    {
        FileField { field: s.to_owned() }
    }

    /// The configured name, as given.
    pub fn get_pathbuf(&self) -> (r: &String)
        ensures
            r@ == self.field@,
    {
        &self.field
    }
}

/// The session's configuration: every field optional, with a stock default
/// behind each unset one.
#[derive(Debug, Clone)]
pub struct Config {
    pub width: Option<TermUnit>,
    pub max_time: Option<Count>,
    pub lenght: Option<TermUnit>,
    pub theme: Option<Theme>,
    pub mode: Option<ModeField>,
    pub file: Option<FileField>,
    pub rate: Option<u16>,
}

impl Config {
    /// The configuration's invariant: whatever is set passed its validation.
    pub open spec fn wf(self) -> bool {
        &&& (self.width matches Some(w) ==> w >= 1)
        &&& (self.max_time matches Some(t) ==> t >= 1)
        &&& (self.lenght matches Some(l) ==> l >= 1)
        &&& (self.rate matches Some(r) ==> r >= 1)
        &&& (self.mode matches Some(m) ==> (m.field@ == "file"@ || m.field@ == "dictionary"@))
    }

    /// A configuration with nothing set: every getter answers its default.
    pub fn empty() -> (r: Config)
        ensures
            r.wf(),
            r.width is None,
            r.max_time is None,
            r.lenght is None,
            r.theme is None,
            r.mode is None,
            r.file is None,
            r.rate is None,
    {
        Config {
            width: None,
            max_time: None,
            theme: None,
            lenght: None,
            mode: None,
            file: None,
            rate: None,
        }
    }

    /// The stock configuration: the file mode over the stock word list, an
    /// eighty-column viewport of two lines, one minute on the clock.
    pub fn default() -> (r: Config)
        ensures
            r.wf(),
            r.width == Some(80u16),
            r.max_time == Some(60u64),
            r.lenght == Some(2u16),
            r.rate == Some(1000u16),
            r.mode matches Some(m) && m.field@ == "file"@,
            r.file matches Some(f) && f.field@ == "100_spanish"@,
            r.theme is Some,
    {
        proof {
            reveal_strlit("file");
            reveal_strlit("dictionary");
        }
        let mode = match ModeField::new("file") {
            Ok(m) => m,
            Err(_) => ModeField { field: "file".to_owned() },
        };
        Config {
            width: Some(80),
            max_time: Some(60),
            theme: Some(Theme::default()),
            lenght: Some(2),
            mode: Some(mode),
            file: Some(FileField::new("100_spanish")),
            rate: Some(1000),
        }
    }

    /// The stock configuration with an unbounded clock, for sessions that
    /// only the player ends.
    pub fn max_time() -> (r: Config)
        ensures
            r.wf(),
            r.max_time == Some(Count::MAX),
            r.mode matches Some(m) && m.field@ == "dictionary"@,
    {
        proof {
            reveal_strlit("file");
            reveal_strlit("dictionary");
        }
        let mode = match ModeField::new("dictionary") {
            Ok(m) => m,
            Err(_) => ModeField { field: "dictionary".to_owned() },
        };
        let mut config = Config::default();
        config.max_time = Some(Count::MAX);
        config.mode = Some(mode);
        config
    }

    pub fn get_mode(&self) -> (r: String)
        ensures
            self.mode matches Some(m) ==> r@ == m.field@,
            self.mode is None ==> r@ == "file"@,
    {
        match &self.mode {
            Some(mode) => mode.to_string(),
            None => "file".to_owned(),
        }
    }

    pub fn set_mode(&mut self, m: &str) -> (r: Option<FieldError>)
        requires
            old(self).wf(),
        ensures
            final(self).wf(),
            (m@ == "file"@ || m@ == "dictionary"@) ==> r is None && (final(self).mode matches Some(
                f,
            ) && f.field@ == m@),
            !(m@ == "file"@ || m@ == "dictionary"@) ==> r == Some(FieldError::InvalidMode)
                && final(self).mode == old(self).mode,
            final(self).width == old(self).width,
            final(self).max_time == old(self).max_time,
            final(self).lenght == old(self).lenght,
            final(self).rate == old(self).rate,
            final(self).file == old(self).file,
            final(self).theme == old(self).theme,
    {
        match ModeField::new(m) {
            Ok(mode) => {
                self.mode = Some(mode);
                None
            },
            Err(_) => Some(FieldError::InvalidMode),
        }
    }

    pub fn get_file(&self) -> (r: String)
        ensures
            self.file matches Some(f) ==> r@ == f.field@,
            self.file is None ==> r@ == "100_spanish"@,
    {
        match &self.file {
            Some(file) => file.field.clone(),
            None => "100_spanish".to_owned(),
        }
    }

    pub fn set_file(&mut self, f: &str) -> (r: Option<FieldError>)
        requires
            old(self).wf(),
        ensures
            final(self).wf(),
            r is None,
            final(self).file matches Some(ff) && ff.field@ == f@,
            final(self).mode == old(self).mode,
            final(self).width == old(self).width,
            final(self).max_time == old(self).max_time,
            final(self).lenght == old(self).lenght,
            final(self).rate == old(self).rate,
            final(self).theme == old(self).theme,
    {
        self.file = Some(FileField::new(f));
        None
    }

    pub fn get_width(&self) -> (r: TermUnit)
        ensures
            self.width matches Some(w) ==> r == w,
            self.width is None ==> r == 80,
    {
        match self.width {
            Some(w) => w,
            None => 80,
        }
    }

    pub fn set_width(&mut self, w: TermUnit) -> (r: Option<FieldError>)
        requires
            old(self).wf(),
        ensures
            final(self).wf(),
            w < 1 ==> r == Some(FieldError::ZeroNotAllowed) && *final(self) == *old(self),
            w >= 1 ==> r is None && final(self).width == Some(w) && final(self).mode == old(
                self,
            ).mode && final(self).max_time == old(self).max_time && final(self).lenght == old(
                self,
            ).lenght && final(self).rate == old(self).rate && final(self).file == old(self).file
                && final(self).theme == old(self).theme,
    {
        if w < 1 {
            return Some(FieldError::ZeroNotAllowed);
        }
        self.width = Some(w);
        None
    }

    /// The countdown, in seconds.
    pub fn get_max_time(&self) -> (r: Count)
        ensures
            self.max_time matches Some(t) ==> r == t,
            self.max_time is None ==> r == 60,
    {
        match self.max_time {
            Some(t) => t,
            None => 60,
        }
    }

    pub fn set_max_time(&mut self, m: Count) -> (r: Option<FieldError>)
        requires
            old(self).wf(),
        ensures
            final(self).wf(),
            m < 1 ==> r == Some(FieldError::ZeroNotAllowed) && *final(self) == *old(self),
            m >= 1 ==> r is None && final(self).max_time == Some(m) && final(self).mode == old(
                self,
            ).mode && final(self).width == old(self).width && final(self).lenght == old(
                self,
            ).lenght && final(self).rate == old(self).rate && final(self).file == old(self).file
                && final(self).theme == old(self).theme,
    {
        if m < 1 {
            return Some(FieldError::ZeroNotAllowed);
        }
        self.max_time = Some(m);
        None
    }

    pub fn get_lenght(&self) -> (r: TermUnit)
        ensures
            self.lenght matches Some(l) ==> r == l,
            self.lenght is None ==> r == 2,
    {
        match self.lenght {
            Some(l) => l,
            None => 2,
        }
    }

    pub fn set_lenght(&mut self, l: TermUnit) -> (r: Option<FieldError>)
        requires
            old(self).wf(),
        ensures
            final(self).wf(),
            l < 1 ==> r == Some(FieldError::ZeroNotAllowed) && *final(self) == *old(self),
            l >= 1 ==> r is None && final(self).lenght == Some(l) && final(self).mode == old(
                self,
            ).mode && final(self).width == old(self).width && final(self).max_time == old(
                self,
            ).max_time && final(self).rate == old(self).rate && final(self).file == old(self).file
                && final(self).theme == old(self).theme,
    {
        if l < 1 {
            return Some(FieldError::ZeroNotAllowed);
        }
        self.lenght = Some(l);
        None
    }

    /// The tick rate, in frames per second.
    pub fn get_rate(&self) -> (r: u16)
        ensures
            self.rate matches Some(f) ==> r == f,
            self.rate is None ==> r == 1000,
    {
        match self.rate {
            Some(f) => f,
            None => 1000,
        }
    }

    pub fn set_rate(&mut self, f: u16) -> (r: Option<FieldError>)
        requires
            old(self).wf(),
        ensures
            final(self).wf(),
            f < 1 ==> r == Some(FieldError::ZeroNotAllowed) && *final(self) == *old(self),
            f >= 1 ==> r is None && final(self).rate == Some(f) && final(self).mode == old(
                self,
            ).mode && final(self).width == old(self).width && final(self).max_time == old(
                self,
            ).max_time && final(self).lenght == old(self).lenght && final(self).file == old(
                self,
            ).file && final(self).theme == old(self).theme,
    {
        if f < 1 {
            return Some(FieldError::ZeroNotAllowed);
        }
        self.rate = Some(f);
        None
    }

    pub fn get_config_text_box(&self) -> (r: Theme)
        ensures
            self.theme matches Some(t) ==> r == t,
            self.theme is None ==> r == (Theme {
                selected: Some(Rgb { r: 128u8, g: 128u8, b: 128u8 }),
                wrong: Some(Rgb { r: 255u8, g: 128u8, b: 128u8 }),
                right: Some(Rgb { r: 64u8, g: 255u8, b: 64u8 }),
            }),
    {
        match self.theme {
            Some(t) => t,
            None => Theme::default(),
        }
    }

    pub fn set_config_text_box(&mut self, c: Theme)
        ensures
            *final(self) == (Config { theme: Some(c), ..*old(self) }),
    {
        self.theme = Some(c);
    }
}

} // verus!
