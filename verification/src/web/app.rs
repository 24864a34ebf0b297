//! Requests about the applications of a user.

use vstd::prelude::*;

verus! {

/// A request to add an application.
#[derive(Debug)]
pub struct AppAddParam {
    pub user_id: Option<u64>,
    pub name: String,
    pub client_id: String,
    pub domain: Option<String>,
}

/// A request to change an application.
#[derive(Debug)]
pub struct AppEditParam {
    pub app_id: u64,
    pub name: String,
    pub client_id: String,
    pub domain: Option<String>,
}

/// A request for a new secret of an application.
#[derive(Clone, Copy, Debug, PartialEq, Eq, Structural)]
pub struct AppResetSecretParam {
    pub app_id: u64,
}

/// A request to see the secret of an application.
#[derive(Clone, Copy, Debug, PartialEq, Eq, Structural)]
pub struct AppViewSecretParam {
    pub app_id: u64,
}

/// A request to confirm an application.
#[derive(Clone, Copy, Debug, PartialEq, Eq, Structural)]
pub struct AppConfrimParam {
    pub app_id: u64,
}

/// The part of a list that a request asks for.
#[derive(Clone, Copy, Debug, PartialEq, Eq, Structural)]
pub struct PageParam {
    pub page: u64,
    pub limit: u64,
}

/// A request to list applications.
#[derive(Debug)]
pub struct AppListParam {
    pub count_num: Option<bool>,
    pub user_id: Option<u64>,
    pub app_id: Option<Vec<u64>>,
    pub status: Option<Vec<i8>>,
    pub client_ids: Option<Vec<String>>,
    pub page: Option<PageParam>,
}

/// A stored application, as far as it is shown.
#[derive(Debug)]
pub struct AppsModel {
    pub id: u64,
    pub name: String,
    pub client_id: String,
    pub callback_domain: String,
    pub status: i8,
    pub user_id: u64,
    pub add_time: u64,
    pub confirm_user_id: u64,
    pub confirm_time: u64,
}

/// An application as a list shows it.
#[derive(Debug)]
pub struct ShowAppData {
    pub id: u64,
    pub name: String,
    pub client_id: String,
    pub callback_domain: String,
    pub status: i8,
    pub user_id: u64,
    pub add_time: u64,
    pub confirm_user_id: u64,
    pub confirm_time: u64,
}

impl From<AppsModel> for ShowAppData {
    fn from(app: AppsModel) -> (out: Self) {
        ShowAppData {
            id: app.id,
            name: app.name,
            client_id: app.client_id,
            callback_domain: app.callback_domain,
            status: app.status,
            user_id: app.user_id,
            add_time: app.add_time,
            confirm_user_id: app.confirm_user_id,
            confirm_time: app.confirm_time,
        }
    }
}

impl vstd::std_specs::convert::FromSpecImpl<AppsModel> for ShowAppData {
    open spec fn obeys_from_spec() -> bool {
        true
    }

    open spec fn from_spec(app: AppsModel) -> Self {
        ShowAppData {
            id: app.id,
            name: app.name,
            client_id: app.client_id,
            callback_domain: app.callback_domain,
            status: app.status,
            user_id: app.user_id,
            add_time: app.add_time,
            confirm_user_id: app.confirm_user_id,
            confirm_time: app.confirm_time,
        }
    }
}

impl AppAddParam {
    /// The user that the application is added for: the one that is named,
    /// and the one who asks where none is.
    pub fn owner(&self, asking_user: u64) -> (out: u64)
        ensures
            out == match self.user_id {
                Some(u) => u,
                None => asking_user,
            },
    {
        match self.user_id {
            Some(u) => u,
            None => asking_user,
        }
    }
}

impl AppListParam {
    /// Whether the answer also counts the applications.
    pub fn counts(&self) -> (out: bool)
        ensures
            out == (self.count_num == Some(true)),
    {
        match self.count_num {
            Some(b) => b,
            None => false,
        }
    }

    /// The user whose applications are listed, as the check of the right to
    /// see them takes it: zero where the request names none.
    pub fn seen_user(&self) -> (out: u64)
        ensures
            out == match self.user_id {
                Some(u) => u,
                None => 0,
            },
    {
        match self.user_id {
            Some(u) => u,
            None => 0,
        }
    }
}

} // verus!
