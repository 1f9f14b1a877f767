//! The translation table for the user-facing strings: a fixed set of keys,
//! each with a text in every supported language, looked up by key and
//! language. An unknown key is answered with a fixed marker.

use vstd::prelude::*;

use crate::strutil::str_eq;

verus! {

/// Supported languages.
#[derive(Debug, Clone, Copy, PartialEq, Eq, Hash, Structural)]
pub enum Language {
    English,
    Arabic,
    French,
    Chinese,
}

/// The mathematical model of one table row.
pub struct LocEntryV {
    pub key: Seq<char>,
    pub english: Seq<char>,
    pub arabic: Seq<char>,
    pub french: Seq<char>,
    pub chinese: Seq<char>,
}

/// One row of the translation table: a key and its text in each language.
#[derive(Debug)]
pub struct LocEntry {
    pub key: String,
    pub english: String,
    pub arabic: String,
    pub french: String,
    pub chinese: String,
}

impl View for LocEntry {
    type V = LocEntryV;

    open spec fn view(&self) -> LocEntryV {
        LocEntryV {
            key: self.key@,
            english: self.english@,
            arabic: self.arabic@,
            french: self.french@,
            chinese: self.chinese@,
        }
    }
}

/// A table row, from its key and its four texts.
pub open spec fn row(k: &str, en: &str, ar: &str, fr: &str, zh: &str) -> LocEntryV {
    LocEntryV { key: k@, english: en@, arabic: ar@, french: fr@, chinese: zh@ }
}

/// The text a row holds for a language.
pub open spec fn row_text(r: LocEntryV, lang: Language) -> Seq<char> {
    match lang {
        Language::English => r.english,
        Language::Arabic => r.arabic,
        Language::French => r.french,
        Language::Chinese => r.chinese,
    }
}

/// The text the table answers for a key and a language: the matching row's
/// text for that language, or the marker if no row has the key.
pub open spec fn spec_lookup(rows: Seq<LocEntryV>, lang: Language, key: Seq<char>) -> Seq<char>
    decreases rows.len(),
{
    if rows.len() == 0 {
        "MISSING_TRANSLATION"@
    } else if rows[0].key == key {
        row_text(rows[0], lang)
    } else {
        spec_lookup(rows.drop_first(), lang, key)
    }
}

/// Holds the translations and answers lookups.
#[derive(Debug)]
pub struct Localizer {
    entries: Vec<LocEntry>,
}

impl View for Localizer {
    type V = Seq<LocEntryV>;

    closed spec fn view(&self) -> Seq<LocEntryV> {
        self.entries@.map_values(|e: LocEntry| e@)
    }
}

impl LocEntry {
    /// A table row with owned texts.
    fn of(k: &str, en: &str, ar: &str, fr: &str, zh: &str) -> (e: LocEntry)
        ensures
            e@ == row(k, en, ar, fr, zh),
    {
        LocEntry {
            key: k.to_owned(),
            english: en.to_owned(),
            arabic: ar.to_owned(),
            french: fr.to_owned(),
            chinese: zh.to_owned(),
        }
    }
}

/// The full translation table, row by row.
pub open spec fn spec_table() -> Seq<LocEntryV> {
    seq![
        row("theme_label", "Theme:", "المظهر:", "Thème :", "主题："),
        row(
            "switch_light_mode",
            "Switch to Light Mode",
            "التحويل إلى الوضع الفاتح",
            "Passer en mode clair",
            "切换到浅色模式",
        ),
        row(
            "switch_dark_mode",
            "Switch to Dark Mode",
            "التحويل إلى الوضع الداكن",
            "Passer en mode sombre",
            "切换到深色模式",
        ),
        row(
            "operation_in_progress",
            "Operation in progress...",
            "العملية جارية...",
            "Opération en cours...",
            "操作进行中...",
        ),
        row(
            "connect_to_ssh",
            "Connect to SSH Server",
            "الاتصال بخادم SSH",
            "Se connecter au serveur SSH",
            "连接到SSH服务器",
        ),
        row(
            "saved_connections",
            "Saved Connections:",
            "الاتصالات المحفوظة:",
            "Connexions enregistrées :",
            "已保存的连接：",
        ),
        row(
            "no_saved_connections",
            "No saved connections.",
            "لا توجد اتصالات محفوظة.",
            "Aucune connexion enregistrée.",
            "没有已保存的连接。",
        ),
        row("select_connection_combo_label", "Select", "اختر", "Sélectionner", "选择"),
        row(
            "choose_a_connection",
            "Choose a connection",
            "اختر اتصالاً",
            "Choisissez une connexion",
            "选择一个连接",
        ),
        row("hostname_label", "Hostname:", "اسم المضيف:", "Nom d'hôte :", "主机名："),
        row("username_label", "Username:", "اسم المستخدم:", "Nom d'utilisateur :", "用户名："),
        row("password_label", "Password:", "كلمة المرور:", "Mot de passe :", "密码："),
        row("port_label", "Port:", "المنفذ:", "Port :", "端口："),
        row(
            "save_current_connection",
            "Save Current Connection",
            "حفظ الاتصال الحالي",
            "Enregistrer la connexion",
            "保存当前连接",
        ),
        row("connect_button", "Connect", "اتصال", "Se connecter", "连接"),
        row(
            "ssh_file_manager",
            "SSH File Manager",
            "مدير ملفات SSH",
            "Gestionnaire de fichiers SSH",
            "SSH文件管理器",
        ),
        row("current_path_label", "Current Path:", "المسار الحالي:", "Chemin actuel :", "当前路径："),
        row(
            "create_directory_label",
            "Create Directory:",
            "إنشاء مجلد:",
            "Créer un répertoire :",
            "创建目录：",
        ),
        row("create_file_label", "Create File:", "إنشاء ملف:", "Créer un fichier :", "创建文件："),
        row("create_label", "Create", "إنشاء", "Créer", "创建"),
        row(
            "directory_name_empty_error",
            "Directory name cannot be empty.",
            "لا يمكن أن يكون اسم الدليل فارغاً.",
            "Le nom du répertoire ne peut pas être vide.",
            "目录名称不能为空。",
        ),
        row(
            "file_name_empty_error",
            "File name cannot be empty.",
            "لا يمكن أن يكون اسم الملف فارغاً.",
            "Le nom du fichier ne peut pas être vide.",
            "文件名不能为空。",
        ),
        row("up_button", "Up", "أعلى", "Haut", "向上"),
        row("home_button", "Home", "الرئيسية", "Accueil", "主页"),
        row("disconnect_button", "Disconnect", "قطع الاتصال", "Déconnecter", "断开连接"),
        row("download_button", "Download", "تنزيل", "Télécharger", "下载"),
        row("delete_button", "Delete", "حذف", "Supprimer", "删除"),
        row("modify_button", "Modify", "تعديل", "Modifier", "修改"),
        row("rename_button", "Rename", "إعادة تسمية", "Renommer", "重命名"),
        row("edit_file_window", "Edit File", "تحرير الملف", "Modifier le fichier", "编辑文件"),
        row("editing_label", "Editing:", "تحرير:", "Édition :", "编辑中："),
        row("save_button", "Save", "حفظ", "Enregistrer", "保存"),
        row("cancel_button", "Cancel", "إلغاء", "Annuler", "取消"),
        row("upload_file_button", "Upload File", "رفع ملف", "Téléverser un fichier", "上传文件"),
    ]
}

impl Localizer {
    /// The localizer holding the full translation table.
    #[verifier::rlimit(60)]
    pub fn new() -> (l: Localizer)
        ensures
            l@ == spec_table(),
    {
        let mut entries: Vec<LocEntry> = Vec::new();
        entries.push(LocEntry::of("theme_label", "Theme:", "المظهر:", "Thème :", "主题："));
        entries.push(
            LocEntry::of(
                "switch_light_mode",
                "Switch to Light Mode",
                "التحويل إلى الوضع الفاتح",
                "Passer en mode clair",
                "切换到浅色模式",
            ),
        );
        entries.push(
            LocEntry::of(
                "switch_dark_mode",
                "Switch to Dark Mode",
                "التحويل إلى الوضع الداكن",
                "Passer en mode sombre",
                "切换到深色模式",
            ),
        );
        entries.push(
            LocEntry::of(
                "operation_in_progress",
                "Operation in progress...",
                "العملية جارية...",
                "Opération en cours...",
                "操作进行中...",
            ),
        );
        entries.push(
            LocEntry::of(
                "connect_to_ssh",
                "Connect to SSH Server",
                "الاتصال بخادم SSH",
                "Se connecter au serveur SSH",
                "连接到SSH服务器",
            ),
        );
        entries.push(
            LocEntry::of(
                "saved_connections",
                "Saved Connections:",
                "الاتصالات المحفوظة:",
                "Connexions enregistrées :",
                "已保存的连接：",
            ),
        );
        entries.push(
            LocEntry::of(
                "no_saved_connections",
                "No saved connections.",
                "لا توجد اتصالات محفوظة.",
                "Aucune connexion enregistrée.",
                "没有已保存的连接。",
            ),
        );
        entries.push(
            LocEntry::of("select_connection_combo_label", "Select", "اختر", "Sélectionner", "选择"),
        );
        entries.push(
            LocEntry::of(
                "choose_a_connection",
                "Choose a connection",
                "اختر اتصالاً",
                "Choisissez une connexion",
                "选择一个连接",
            ),
        );
        entries.push(
            LocEntry::of("hostname_label", "Hostname:", "اسم المضيف:", "Nom d'hôte :", "主机名："),
        );
        entries.push(
            LocEntry::of(
                "username_label",
                "Username:",
                "اسم المستخدم:",
                "Nom d'utilisateur :",
                "用户名：",
            ),
        );
        entries.push(
            LocEntry::of("password_label", "Password:", "كلمة المرور:", "Mot de passe :", "密码："),
        );
        entries.push(LocEntry::of("port_label", "Port:", "المنفذ:", "Port :", "端口："));
        entries.push(
            LocEntry::of(
                "save_current_connection",
                "Save Current Connection",
                "حفظ الاتصال الحالي",
                "Enregistrer la connexion",
                "保存当前连接",
            ),
        );
        entries.push(LocEntry::of("connect_button", "Connect", "اتصال", "Se connecter", "连接"));
        entries.push(
            LocEntry::of(
                "ssh_file_manager",
                "SSH File Manager",
                "مدير ملفات SSH",
                "Gestionnaire de fichiers SSH",
                "SSH文件管理器",
            ),
        );
        entries.push(
            LocEntry::of(
                "current_path_label",
                "Current Path:",
                "المسار الحالي:",
                "Chemin actuel :",
                "当前路径：",
            ),
        );
        entries.push(
            LocEntry::of(
                "create_directory_label",
                "Create Directory:",
                "إنشاء مجلد:",
                "Créer un répertoire :",
                "创建目录：",
            ),
        );
        entries.push(
            LocEntry::of(
                "create_file_label",
                "Create File:",
                "إنشاء ملف:",
                "Créer un fichier :",
                "创建文件：",
            ),
        );
        entries.push(LocEntry::of("create_label", "Create", "إنشاء", "Créer", "创建"));
        entries.push(
            LocEntry::of(
                "directory_name_empty_error",
                "Directory name cannot be empty.",
                "لا يمكن أن يكون اسم الدليل فارغاً.",
                "Le nom du répertoire ne peut pas être vide.",
                "目录名称不能为空。",
            ),
        );
        entries.push(
            LocEntry::of(
                "file_name_empty_error",
                "File name cannot be empty.",
                "لا يمكن أن يكون اسم الملف فارغاً.",
                "Le nom du fichier ne peut pas être vide.",
                "文件名不能为空。",
            ),
        );
        entries.push(LocEntry::of("up_button", "Up", "أعلى", "Haut", "向上"));
        entries.push(LocEntry::of("home_button", "Home", "الرئيسية", "Accueil", "主页"));
        entries.push(
            LocEntry::of("disconnect_button", "Disconnect", "قطع الاتصال", "Déconnecter", "断开连接"),
        );
        entries.push(
            LocEntry::of("download_button", "Download", "تنزيل", "Télécharger", "下载"),
        );
        entries.push(LocEntry::of("delete_button", "Delete", "حذف", "Supprimer", "删除"));
        entries.push(LocEntry::of("modify_button", "Modify", "تعديل", "Modifier", "修改"));
        entries.push(
            LocEntry::of("rename_button", "Rename", "إعادة تسمية", "Renommer", "重命名"),
        );
        entries.push(
            LocEntry::of(
                "edit_file_window",
                "Edit File",
                "تحرير الملف",
                "Modifier le fichier",
                "编辑文件",
            ),
        );
        entries.push(LocEntry::of("editing_label", "Editing:", "تحرير:", "Édition :", "编辑中："));
        entries.push(LocEntry::of("save_button", "Save", "حفظ", "Enregistrer", "保存"));
        entries.push(LocEntry::of("cancel_button", "Cancel", "إلغاء", "Annuler", "取消"));
        entries.push(
            LocEntry::of(
                "upload_file_button",
                "Upload File",
                "رفع ملف",
                "Téléverser un fichier",
                "上传文件",
            ),
        );
        let l = Localizer { entries };
        proof {
            assert(l@ =~= spec_table());
        }
        l
    }

    /// The text for a key in a language: the matching row's text, or the
    /// marker if the table has no row with that key.
    pub fn t(&self, lang: Language, key: &str) -> (r: &str)
        ensures
            r@ == spec_lookup(self@, lang, key@),
    {
        let n = self.entries.len();
        let mut i: usize = 0;
        proof {
            assert(self@.skip(0) =~= self@);
        }
        while i < n
            invariant
                i <= n,
                n == self@.len(),
                self@.len() == self.entries@.len(),
                spec_lookup(self@, lang, key@) == spec_lookup(self@.skip(i as int), lang, key@),
            decreases n - i,
        {
            proof {
                assert(self@.skip(i as int)[0] == self@[i as int]);
                assert(self@.skip(i as int).drop_first() =~= self@.skip(i + 1));
            }
            if str_eq(self.entries[i].key.as_str(), key) {
                return match lang {
                    Language::English => self.entries[i].english.as_str(),
                    Language::Arabic => self.entries[i].arabic.as_str(),
                    Language::French => self.entries[i].french.as_str(),
                    Language::Chinese => self.entries[i].chinese.as_str(),
                };
            }
            i = i + 1;
        }
        proof {
            assert(self@.skip(n as int) =~= Seq::<LocEntryV>::empty());
        }
        "MISSING_TRANSLATION"
    }
}

} // verus!
