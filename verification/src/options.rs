//! Настройки подключения к PostgreSQL.
use crate::text::{dec_text, u64_text};
use vstd::prelude::*;

verus! {

/// Настройки подключения к PostgreSQL и пула соединений.
#[derive(Debug, Clone)]
pub struct PgDbOptions {
    host: String,
    port: u16,
    db_name: String,
    user: String,
    pw: String,
    min_connections: u32,
    max_connections: u32,
    /// Таймаут установки соединения в секундах.
    timeout_s: u64,
    /// Максимальный возраст соединения перед переподключением (сек).
    connection_refresh_s: u64,
}

/// Модель настроек.
pub struct PgDbOptionsModel {
    pub host: Seq<char>,
    pub port: u16,
    pub db_name: Seq<char>,
    pub user: Seq<char>,
    pub pw: Seq<char>,
    pub min_connections: u32,
    pub max_connections: u32,
    pub timeout_s: u64,
    pub connection_refresh_s: u64,
}

impl View for PgDbOptions {
    type V = PgDbOptionsModel;

    closed spec fn view(&self) -> PgDbOptionsModel {
        PgDbOptionsModel {
            host: self.host@,
            port: self.port,
            db_name: self.db_name@,
            user: self.user@,
            pw: self.pw@,
            min_connections: self.min_connections,
            max_connections: self.max_connections,
            timeout_s: self.timeout_s,
            connection_refresh_s: self.connection_refresh_s,
        }
    }
}

/// Адрес подключения `postgres://user:pw@host:port/db`.
pub open spec fn connection_url_text(o: PgDbOptionsModel, db: Seq<char>) -> Seq<char> {
    "postgres://"@ + o.user + ":"@ + o.pw + "@"@ + o.host + ":"@ + dec_text(o.port as nat) + "/"@ + db
}

/// Имя тестовой базы `{пакет}_{db_name}`; без имени пакета -- `unknown`.
pub open spec fn test_db_name_text(o: PgDbOptionsModel, pkg_name: Option<Seq<char>>) -> Seq<char> {
    (match pkg_name {
        Some(n) => n,
        None => "unknown"@,
    }) + "_"@ + o.db_name
}

impl PgDbOptions {
    /// Настройки по значениям.
    pub fn new(
        host: String,
        port: u16,
        db_name: String,
        user: String,
        pw: String,
        min_connections: u32,
        max_connections: u32,
        timeout_s: u64,
        connection_refresh_s: u64,
    ) -> (r: PgDbOptions)
        ensures
            r@ == (PgDbOptionsModel {
                host: host@,
                port,
                db_name: db_name@,
                user: user@,
                pw: pw@,
                min_connections,
                max_connections,
                timeout_s,
                connection_refresh_s,
            }),
    {
        PgDbOptions { host, port, db_name, user, pw, min_connections, max_connections, timeout_s, connection_refresh_s }
    }

    /// Настройки с числовым суффиксом у имени базы (изолированная база теста).
    pub fn with_db_suffix(self, suffix: u16) -> (r: PgDbOptions)
        ensures
            r@ == (PgDbOptionsModel { db_name: self@.db_name + dec_text(suffix as nat), ..self@ }),
    {
        let mut o = self;
        let t = u64_text(suffix as u64);
        o.db_name.append(t.as_str());
        o
    }

    /// Имя базы.
    pub fn db_name(&self) -> (r: &str)
        ensures
            r@ == self@.db_name,
    {
        self.db_name.as_str()
    }

    /// Хост.
    pub fn host(&self) -> (r: &str)
        ensures
            r@ == self@.host,
    {
        self.host.as_str()
    }

    /// Порт.
    pub fn port(&self) -> (r: u16)
        ensures
            r == self@.port,
    {
        self.port
    }

    /// Пользователь.
    pub fn user(&self) -> (r: &str)
        ensures
            r@ == self@.user,
    {
        self.user.as_str()
    }

    /// Пароль.
    pub fn pw(&self) -> (r: &str)
        ensures
            r@ == self@.pw,
    {
        self.pw.as_str()
    }

    /// Наименьшее число соединений пула.
    pub fn min_connections(&self) -> (r: u32)
        ensures
            r == self@.min_connections,
    {
        self.min_connections
    }

    /// Наибольшее число соединений пула.
    pub fn max_connections(&self) -> (r: u32)
        ensures
            r == self@.max_connections,
    {
        self.max_connections
    }

    /// Таймаут соединения (сек).
    pub fn timeout_s(&self) -> (r: u64)
        ensures
            r == self@.timeout_s,
    {
        self.timeout_s
    }

    /// Возраст соединения до переподключения (сек).
    pub fn connection_refresh_s(&self) -> (r: u64)
        ensures
            r == self@.connection_refresh_s,
    {
        self.connection_refresh_s
    }

    /// Адрес подключения к базе `db_name`.
    pub fn connection_url(&self, db_name: &str) -> (r: String)
        ensures
            r@ == connection_url_text(self@, db_name@),
    {
        let mut u = String::from_str("postgres://");
        u.append(self.user.as_str());
        u.append(":");
        u.append(self.pw.as_str());
        u.append("@");
        u.append(self.host.as_str());
        u.append(":");
        let p = u64_text(self.port as u64);
        u.append(p.as_str());
        u.append("/");
        u.append(db_name);
        u
    }

    /// Имя тестовой базы `{пакет}_{db_name}` по имени пакета (если оно известно).
    pub fn test_db_name(&self, pkg_name: Option<&str>) -> (r: String)
        ensures
            r@ == test_db_name_text(self@, match pkg_name {
                Some(n) => Some(n@),
                None => None,
            }),
    {
        let mut r = match pkg_name {
            Some(n) => String::from_str(n),
            None => String::from_str("unknown"),
        };
        r.append("_");
        r.append(self.db_name.as_str());
        r
    }
}

} // verus!
