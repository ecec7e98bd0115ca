use vstd::prelude::*;

verus! {

/// What kind of content a clipboard item holds.
#[derive(Debug, Clone, Copy, PartialEq, Eq, Structural)]
pub enum ContentType {
    Code,
    Url,
    Email,
    PhoneNumber,
    FilePath,
    Command,
    Image,
    Text,
}

impl ContentType {
    /// The name under which this kind is stored and searched.
    pub open spec fn name(self) -> Seq<char> {
        match self {
            ContentType::Code => "code"@,
            ContentType::Url => "url"@,
            ContentType::Email => "email"@,
            ContentType::PhoneNumber => "phone_number"@,
            ContentType::FilePath => "file_path"@,
            ContentType::Command => "command"@,
            ContentType::Image => "image"@,
            ContentType::Text => "text"@,
        }
    }

    /// The name of the kind.
    pub fn as_str(&self) -> (r: &'static str)
        ensures
            r@ == self.name(),
    {
        match self {
            ContentType::Code => "code",
            ContentType::Url => "url",
            ContentType::Email => "email",
            ContentType::PhoneNumber => "phone_number",
            ContentType::FilePath => "file_path",
            ContentType::Command => "command",
            ContentType::Image => "image",
            ContentType::Text => "text",
        }
    }
}

} // verus!
