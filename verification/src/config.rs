//! The saved configuration: the server and the session cookies.
use vstd::prelude::*;
use crate::cookies::CookieJar;

verus! {

/// The configuration saved between runs.
#[derive(Debug, PartialEq)]
pub struct ConfigFile {
    pub server: Option<String>,
    pub cookies: CookieJar,
}

impl ConfigFile {
    /// No server and no cookies.
    pub fn new() -> (r: ConfigFile)
        ensures
            r.server is None,
            r.cookies@ == Map::<Seq<char>, Seq<char>>::empty(),
    {
        ConfigFile { server: None, cookies: CookieJar::new() }
    }

    /// Forgets the session cookies and keeps the server.
    pub fn clear_session(&mut self)
        ensures
            final(self).server == old(self).server,
            final(self).cookies@ == Map::<Seq<char>, Seq<char>>::empty(),
    {
        self.cookies.clear();
    }

    /// Records a sign-in: the server it went to, and its cookies when it set any
    /// (otherwise the saved cookies stay).
    pub fn record_sign_in(&mut self, server: String, cookies: CookieJar)
        ensures
            final(self).server matches Some(s) && s@ == server@,
            final(self).cookies@ == if cookies@ == Map::<Seq<char>, Seq<char>>::empty() {
                old(self).cookies@
            } else {
                cookies@
            },
    {
        self.server = Some(server);
        if !cookies.is_empty() {
            self.cookies = cookies;
        }
    }

    /// Records a sign-out: the cookies the server left.
    pub fn record_sign_out(&mut self, cookies: CookieJar)
        ensures
            final(self).server == old(self).server,
            final(self).cookies@ == cookies@,
    {
        self.cookies = cookies;
    }
}

impl Default for ConfigFile {
    fn default() -> (r: ConfigFile)
        ensures
            r.server is None,
            r.cookies@ == Map::<Seq<char>, Seq<char>>::empty(),
    {
        ConfigFile::new()
    }
}

impl Clone for ConfigFile {
    fn clone(&self) -> (r: ConfigFile)
        ensures
            r.server == self.server,
            r.cookies@ == self.cookies@,
    {
        let server = match &self.server {
            Some(s) => Some(s.clone()),
            None => None,
        };
        ConfigFile { server, cookies: self.cookies.duplicate() }
    }
}

} // verus!
