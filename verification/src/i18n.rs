//! Runtime localization of operational messages.
//!
//! Errors often carry a path, a count, a server reply or the words of the operating system. Only
//! known messages and fixed fragments are translated, each at its own place, and those variable
//! details are preserved byte for byte: what follows a fixed beginning, what stands between a fixed
//! beginning and its end, and everything from the first slash on.

use vstd::prelude::*;
use vstd::slice::slice_subrange;

use crate::lexical::same;
use crate::numerals::is_digit;
use crate::pieces::{extend_chars, has_prefix, starts_with};
use crate::text::{chars_of, same_text, string_of};

verus! {

/// Whole messages.
pub const EXACT_PL: [(&'static str, &'static str); 98] = [
    ("0 transfers", "0 transferów"),
    (
        "Choose a direction, then preview the changes.",
        "Wybierz kierunek, a następnie wyświetl podgląd zmian.",
    ),
    (
        "Choose a direction, then run the dry-run preview.",
        "Wybierz kierunek, a następnie uruchom podgląd dry-run.",
    ),
    ("Calculating storage use…", "Obliczanie użycia pamięci…"),
    ("Calculating bounded storage use…", "Obliczanie ograniczonego użycia pamięci…"),
    ("Calculating folder size...", "Obliczanie rozmiaru folderu…"),
    ("Saved servers reordered.", "Zmieniono kolejność zapisanych serwerów."),
    ("Favorites reordered.", "Zmieniono kolejność Ulubionych."),
    ("Favorite already exists.", "Ten folder jest już w Ulubionych."),
    ("Only folders can be added to Favorites.", "Do Ulubionych można dodać tylko foldery."),
    (
        "Only local folders can be added to Favorites.",
        "Do Ulubionych można dodać tylko foldery lokalne.",
    ),
    ("Encrypted settings operation cancelled.", "Anulowano operację zaszyfrowanych ustawień."),
    ("Passphrases don't match.", "Hasła nie są zgodne."),
    ("Settings imported safely.", "Ustawienia zaimportowano bezpiecznie."),
    ("Vault unlocked — passwords are available.", "Sejf odblokowany — hasła są dostępne."),
    (
        "Older encrypted credentials were found. Confirm the downloaded server list to recover them.",
        "Znaleziono starsze zaszyfrowane dane logowania. Potwierdź pobraną listę serwerów, aby je odzyskać.",
    ),
    (
        "Password recovery was not performed. No credential data was changed.",
        "Nie wykonano odzyskiwania haseł. Dane logowania nie zostały zmienione.",
    ),
    (
        "Could not lock saved connections for password recovery.",
        "Nie udało się zablokować zapisanych połączeń na czas odzyskiwania haseł.",
    ),
    (
        "The server list or encrypted vault changed before recovery. Review it and try again.",
        "Lista serwerów lub zaszyfrowany sejf zmieniły się przed odzyskiwaniem. Sprawdź je i spróbuj ponownie.",
    ),
    (
        "No password could be recovered. The encrypted vault was left unchanged.",
        "Nie udało się odzyskać żadnego hasła. Zaszyfrowany sejf pozostał bez zmian.",
    ),
    ("Wrong passphrase.", "Nieprawidłowe hasło."),
    (
        "SFTP host key was not trusted; connection cancelled.",
        "Klucz hosta SFTP nie został zatwierdzony; anulowano połączenie.",
    ),
    (
        "SFTP host key trusted for this server. Reconnecting…",
        "Klucz hosta SFTP został zatwierdzony dla tego serwera. Ponowne łączenie…",
    ),
    (
        "FTPS certificate was not trusted; connection cancelled.",
        "Certyfikat FTPS nie został zatwierdzony; anulowano połączenie.",
    ),
    ("Testing connection without saving…", "Testowanie połączenia bez zapisywania…"),
    (
        "Connected via plaintext FTP — password was sent unencrypted.",
        "Połączono przez nieszyfrowany FTP — hasło wysłano bez szyfrowania.",
    ),
    (
        "The FTPS certificate fingerprint was malformed.",
        "Odcisk certyfikatu FTPS ma nieprawidłowy format.",
    ),
    (
        "The connection changed while the certificate dialog was open.",
        "Połączenie zmieniło się, gdy okno certyfikatu było otwarte.",
    ),
    ("Could not lock saved connections.", "Nie udało się zablokować zapisanych połączeń."),
    ("The saved connection no longer exists.", "Zapisane połączenie już nie istnieje."),
    ("Run a dry-run preview before applying.", "Przed zastosowaniem uruchom podgląd dry-run."),
    (
        "Run a dry-run preview before exporting a report.",
        "Przed eksportem raportu uruchom podgląd dry-run.",
    ),
    ("The server credential is unavailable.", "Dane logowania do serwera są niedostępne."),
    (
        "The active server credential is unavailable.",
        "Dane logowania do aktywnego serwera są niedostępne.",
    ),
    ("missing credential", "brak danych logowania"),
    ("Missing credential.", "Brak danych logowania."),
    ("Remote search cancelled.", "Anulowano wyszukiwanie zdalne."),
    ("Cancelling remote search…", "Anulowanie wyszukiwania zdalnego…"),
    (
        "Wait until both directory listings are complete.",
        "Poczekaj na zakończenie wczytywania obu katalogów.",
    ),
    (
        "Both panes must contain an available local folder or server.",
        "Oba panele muszą zawierać dostępny folder lokalny lub serwer.",
    ),
    (
        "Could not enable synchronized browsing.",
        "Nie udało się włączyć zsynchronizowanego przeglądania.",
    ),
    (
        "Places are available only for a connected remote pane.",
        "Miejsca są dostępne tylko dla połączonego panelu zdalnego.",
    ),
    (
        "Could not identify the active endpoint safely.",
        "Nie udało się bezpiecznie zidentyfikować aktywnego serwera.",
    ),
    ("This server place is already saved.", "To miejsce na serwerze jest już zapisane."),
    (
        "The saved remote-place limit has been reached.",
        "Osiągnięto limit zapisanych miejsc zdalnych.",
    ),
    ("Current remote folder added to Places.", "Bieżący folder zdalny dodano do Miejsc."),
    ("Remote Place removed.", "Usunięto zdalne Miejsce."),
    ("Already viewing Remote Trash.", "Zdalny Kosz jest już otwarty."),
    (
        "Missing credential; could not open Remote Trash.",
        "Brak danych logowania; nie można otworzyć zdalnego Kosza.",
    ),
    ("Remote Trash is empty.", "Zdalny Kosz jest pusty."),
    (
        "Invalid quarantined filename; nothing was changed.",
        "Nieprawidłowa nazwa w kwarantannie; niczego nie zmieniono.",
    ),
    (
        "Missing credential; nothing was restored.",
        "Brak danych logowania; niczego nie przywrócono.",
    ),
    (
        "Select a saved server before changing its TLS policy.",
        "Przed zmianą zasad TLS wybierz zapisany serwer.",
    ),
    ("The active server is no longer saved.", "Aktywny serwer nie jest już zapisany."),
    ("Invalid folder name.", "Nieprawidłowa nazwa folderu."),
    (
        "Invalid remote filename; nothing was deleted.",
        "Nieprawidłowa zdalna nazwa; niczego nie usunięto.",
    ),
    ("Select at least one item to copy.", "Zaznacz co najmniej jeden element do skopiowania."),
    ("The source pane is unavailable.", "Panel źródłowy jest niedostępny."),
    ("The gmacFTP file clipboard is empty.", "Schowek plików gmacFTP jest pusty."),
    (
        "Paste started with normal conflict checks.",
        "Rozpoczęto wklejanie ze standardową kontrolą konfliktów.",
    ),
    (
        "Select at least one item to duplicate.",
        "Zaznacz co najmniej jeden element do zduplikowania.",
    ),
    (
        "Duplicating selected item(s) under unique names…",
        "Duplikowanie zaznaczonych elementów pod unikalnymi nazwami…",
    ),
    ("Select at least one item to move.", "Zaznacz co najmniej jeden element do przeniesienia."),
    (
        "A folder cannot be moved into itself or its descendant.",
        "Folderu nie można przenieść do niego samego ani jego podfolderu.",
    ),
    (
        "Select at least two items for batch rename.",
        "Zaznacz co najmniej dwa elementy do zmiany nazw.",
    ),
    (
        "Remote editing requires a connected server pane.",
        "Edycja zdalna wymaga połączonego panelu serwera.",
    ),
    ("copied to clipboard", "skopiowano do schowka"),
    ("clipboard copy failed", "kopiowanie do schowka nie powiodło się"),
    ("cancelling selected transfer…", "anulowanie wybranego transferu…"),
    ("transfer queued again", "transfer ponownie dodano do kolejki"),
    ("Retry data is no longer available.", "Dane potrzebne do ponowienia nie są już dostępne."),
    ("Transfer queue is full.", "Kolejka transferów jest pełna."),
    (
        "Only a transfer that is still queued can be paused.",
        "Wstrzymać można tylko transfer pozostający w kolejce.",
    ),
    ("Invalid transfer priority.", "Nieprawidłowy priorytet transferu."),
    (
        "Priority can be changed only while a transfer is queued.",
        "Priorytet można zmienić tylko dla transferu w kolejce.",
    ),
    ("Transfer priority updated.", "Zaktualizowano priorytet transferu."),
    (
        "Only queued transfers can be reordered.",
        "Zmieniać kolejność można tylko transferom w kolejce.",
    ),
    (
        "Transfer is already at the edge of its priority group.",
        "Transfer jest już na skraju swojej grupy priorytetu.",
    ),
    (
        "Transfer started before it could be reordered.",
        "Transfer rozpoczął się przed zmianą kolejności.",
    ),
    ("Transfer queue reordered.", "Zmieniono kolejność transferów."),
    ("Redacted transfer history exported.", "Wyeksportowano zanonimizowaną historię transferów."),
    ("failed file skipped — continuing batch", "pominięto błędny plik — partia jest kontynuowana"),
    ("stopping remaining files in this batch…", "zatrzymywanie pozostałych plików w tej partii…"),
    ("Metadata caches cleared.", "Wyczyszczono cache metadanych."),
    (
        "Calculated folder metadata caches cleared.",
        "Wyczyszczono cache obliczonych metadanych folderów.",
    ),
    ("Sync folder updated safely.", "Folder synchronizacji zaktualizowano bezpiecznie."),
    ("folder is empty", "folder jest pusty"),
    ("remote→remote copy complete", "zakończono kopiowanie zdalne→zdalne"),
    ("preparing folder upload…", "przygotowywanie wysyłania folderu…"),
    ("preparing folder download…", "przygotowywanie pobierania folderu…"),
    ("copying…", "kopiowanie…"),
    (
        "Update checks are available only in the public gmacFTP build.",
        "Sprawdzanie aktualizacji jest dostępne tylko w publicznej wersji gmacFTP.",
    ),
    ("An update check is already running.", "Sprawdzanie aktualizacji już trwa."),
    ("Checking for updates…", "Sprawdzanie aktualizacji…"),
    (
        "Could not prepare the verified update prompt.",
        "Nie udało się przygotować okna zweryfikowanej aktualizacji.",
    ),
    ("A new gmacFTP version is available.", "Dostępna jest nowa wersja gmacFTP."),
    (
        "The selected update is no longer available; check again.",
        "Wybrana aktualizacja nie jest już dostępna; sprawdź ponownie.",
    ),
    (
        "Downloading and verifying the signed update…",
        "Pobieranie i weryfikowanie podpisanej aktualizacji…",
    ),
];

/// Messages around one detail: what stands before it and after it, each with its translation.
pub const FRAMED_PL: [(&'static str, &'static str, &'static str, &'static str); 3] = [
    (
        "Connection successful — listed ",
        "Połączenie udane — odczytano elementy (",
        " item(s), but the session is plaintext FTP.",
        "), ale sesja korzysta z nieszyfrowanego FTP.",
    ),
    (
        "Connection successful — authentication and listing completed (",
        "Połączenie udane — zakończono logowanie i listowanie; elementy (",
        " item(s)).",
        ").",
    ),
    (
        "Verified update ",
        "Zweryfikowaną aktualizację ",
        " opened — drag gmacFTP to Applications, then relaunch.",
        " otwarto — przeciągnij gmacFTP do Aplikacji, a następnie uruchom ponownie.",
    ),
];

/// What a message begins with where a detail follows: a path, a name, a reply, a version.
pub const LEADING_PL: [(&'static str, &'static str); 48] = [
    ("Could not recover saved passwords: ", "Nie udało się odzyskać zapisanych haseł: "),
    ("Could not inspect saved passwords: ", "Nie udało się sprawdzić zapisanych haseł: "),
    (
        "Could not save the FTPS certificate pin: ",
        "Nie udało się zapisać przypięcia certyfikatu FTPS: ",
    ),
    ("Could not migrate saved passwords: ", "Nie udało się zmigrować zapisanych haseł: "),
    ("Could not prepare folder upload: ", "Nie udało się przygotować wysyłania folderu: "),
    ("could not prepare folder upload: ", "nie udało się przygotować wysyłania folderu: "),
    ("could not prepare folder download: ", "nie udało się przygotować pobierania folderu: "),
    ("Could not save sync profile: ", "Nie udało się zapisać profilu synchronizacji: "),
    ("Could not delete sync profile: ", "Nie udało się usunąć profilu synchronizacji: "),
    ("Could not export transfer report: ", "Nie udało się wyeksportować raportu transferów: "),
    (
        "Could not export synchronization report: ",
        "Nie udało się wyeksportować raportu synchronizacji: ",
    ),
    ("Could not open Remote Trash: ", "Nie udało się otworzyć zdalnego Kosza: "),
    ("Could not save remote Place: ", "Nie udało się zapisać zdalnego Miejsca: "),
    ("Could not remove remote Place: ", "Nie udało się usunąć zdalnego Miejsca: "),
    ("Could not save Favorites order: ", "Nie udało się zapisać kolejności Ulubionych: "),
    ("Could not save Favorites: ", "Nie udało się zapisać Ulubionych: "),
    ("Could not remove Favorite: ", "Nie udało się usunąć z Ulubionych: "),
    ("Could not save server order: ", "Nie udało się zapisać kolejności serwerów: "),
    ("Could not save settings: ", "Nie udało się zapisać ustawień: "),
    ("Could not import settings: ", "Nie udało się zaimportować ustawień: "),
    ("Could not save language: ", "Nie udało się zapisać języka: "),
    ("Could not save theme: ", "Nie udało się zapisać motywu: "),
    ("Update check failed: ", "Sprawdzanie aktualizacji nie powiodło się: "),
    ("Update download failed: ", "Pobieranie aktualizacji nie powiodło się: "),
    ("Connection test failed: ", "Test połączenia nie powiódł się: "),
    ("gmacFTP is up to date (v", "gmacFTP jest aktualny (v"),
    ("Verified update ", "Zweryfikowaną aktualizację "),
    ("Could not copy ", "Nie udało się skopiować "),
    ("Could not inspect metadata: ", "Nie udało się odczytać metadanych: "),
    ("Could not start external drag.", "Nie udało się rozpocząć przeciągania poza aplikację."),
    ("Could not prepare drag: ", "Nie udało się przygotować przeciągania: "),
    ("Cannot save profile: ", "Nie można zapisać profilu: "),
    ("Sync preview failed: ", "Podgląd synchronizacji nie powiódł się: "),
    ("Invalid sync comparison settings: ", "Nieprawidłowe ustawienia porównania synchronizacji: "),
    ("Invalid comparison settings: ", "Nieprawidłowe ustawienia porównania: "),
    ("Invalid exclusions: ", "Nieprawidłowe wykluczenia: "),
    ("Invalid search result: ", "Nieprawidłowy wynik wyszukiwania: "),
    ("Skipped existing item: ", "Pominięto istniejący element: "),
    ("Opening the folder containing ", "Otwieranie folderu zawierającego "),
    ("folder not found: ", "nie znaleziono folderu: "),
    ("delete failed: ", "usuwanie nie powiodło się: "),
    ("copy failed: ", "kopiowanie nie powiodło się: "),
    ("FTP→FTP relay failed: ", "Przekazywanie FTP→FTP nie powiodło się: "),
    ("Added to Favorites: ", "Dodano do Ulubionych: "),
    ("Removed from Favorites: ", "Usunięto z Ulubionych: "),
    ("Saved synchronization profile ", "Zapisano profil synchronizacji "),
    ("Deleted synchronization profile ", "Usunięto profil synchronizacji "),
    ("Searching under ", "Wyszukiwanie w "),
];

/// What a message begins with where numbers may follow.
pub const COUNTING_PL: [(&'static str, &'static str); 22] = [
    (
        "Ambiguous synced passwords requiring manual re-entry: ",
        "Niejednoznaczne zsynchronizowane hasła wymagające ponownego wpisania: ",
    ),
    ("Recovered saved passwords: ", "Odzyskane zapisane hasła: "),
    ("Connection successful — listed ", "Połączenie udane — odczytano elementy ("),
    (
        "Connection successful — authentication and listing completed (",
        "Połączenie udane — zakończono logowanie i listowanie; elementy (",
    ),
    ("Skipped ", "Pominięto "),
    ("Copying ", "Kopiowanie "),
    ("copying ", "kopiowanie "),
    ("Copied ", "Skopiowano "),
    ("copied ", "skopiowano "),
    ("Downloading ", "Pobieranie "),
    ("downloading ", "pobieranie "),
    ("Uploading ", "Wysyłanie "),
    ("uploading ", "wysyłanie "),
    ("Moving ", "Przenoszenie "),
    ("Moved ", "Przeniesiono "),
    ("moved ", "przeniesiono "),
    ("Renaming ", "Zmiana nazw "),
    ("Renamed ", "Zmieniono nazwę "),
    ("Loading directory… ", "Wczytywanie katalogu… "),
    ("Folder size: ", "Rozmiar folderu: "),
    ("Passphrase exceeds ", "Hasło przekracza "),
    ("Selected ", "Zaznaczono "),
];

/// What stands directly after a number.
pub const COUNTED_PL: [(&'static str, &'static str); 11] = [
    (". You can connect normally now.", ". Możesz teraz normalnie się łączyć."),
    (
        "; ambiguous passwords requiring manual re-entry: ",
        "; niejednoznaczne hasła wymagające ponownego wpisania: ",
    ),
    (" synchronized file(s)", " synchronized plików"),
    (" matching files", " matching plików"),
    (" unsafe path(s)", " unsafe ścieżek"),
    (" path(s)", " ścieżek"),
    (" item(s)", " elementów"),
    (" file(s)", " plików"),
    (" files", " plików"),
    (" entries", " pozycji"),
    (" bytes.", " bajtów."),
];

/// The translation of a whole message.
pub open spec fn exact_translation(message: Seq<char>, from: int) -> Option<Seq<char>>
    decreases EXACT_PL@.len() - from,
{
    if from < 0 || from >= EXACT_PL@.len() {
        None
    } else if EXACT_PL@[from].0@ == message {
        Some(EXACT_PL@[from].1@)
    } else {
        exact_translation(message, from + 1)
    }
}

/// The first entry of a table, at or after a position, that the text begins with.
pub open spec fn beginning(
    table: Seq<(&'static str, &'static str)>,
    text: Seq<char>,
    from: int,
) -> Option<int>
    decreases table.len() - from,
{
    if from < 0 || from >= table.len() {
        None
    } else if has_prefix(text, table[from].0@) {
        Some(from)
    } else {
        beginning(table, text, from + 1)
    }
}

/// The text begins with the beginning of an entry and ends with its end, and these do not overlap.
pub open spec fn is_framed(text: Seq<char>, i: int) -> bool {
    let (before, _, after, _) = FRAMED_PL@[i];
    &&& has_prefix(text, before@)
    &&& text.len() >= before@.len() + after@.len()
    &&& text.skip(text.len() - after@.len()) == after@
}

/// The first entry that frames the text.
pub open spec fn frame(text: Seq<char>, from: int) -> Option<int>
    decreases FRAMED_PL@.len() - from,
{
    if from < 0 || from >= FRAMED_PL@.len() {
        None
    } else if is_framed(text, from) {
        Some(from)
    } else {
        frame(text, from + 1)
    }
}

/// How many digits the text begins with.
pub open spec fn digits_ahead(text: Seq<char>) -> nat
    decreases text.len(),
{
    if text.len() > 0 && is_digit(text[0]) {
        1 + digits_ahead(text.skip(1))
    } else {
        0
    }
}

/// A number may begin after this character.
pub open spec fn opens_number(c: char) -> bool {
    c == ' ' || c == '('
}

/// A word of a sentence may end here: nothing follows, or a space or a mark; a full stop only where
/// it ends the sentence.
pub open spec fn word_ends(rest: Seq<char>) -> bool {
    ||| rest.len() == 0
    ||| rest[0] == ' ' || rest[0] == ',' || rest[0] == ';' || rest[0] == ':' || rest[0] == ')'
        || rest[0] == '…' || rest[0] == '\n'
    ||| rest[0] == '.' && (rest.len() == 1 || rest[1] == ' ' || rest[1] == '\n')
}

/// The known words with which the text after a number goes on.
pub open spec fn counted_word(rest: Seq<char>) -> Option<int> {
    match beginning(COUNTED_PL@, rest, 0) {
        Some(i) => {
            let word = COUNTED_PL@[i].0@;
            if 0 < word.len() <= rest.len() && (word.last() == ' ' || word_ends(
                rest.skip(word.len() as int),
            )) {
                Some(i)
            } else {
                None
            }
        },
        None => None,
    }
}

/// The text with the known words directly after its numbers translated. `fresh` says whether a
/// number may begin right here. From the first slash on nothing is touched: there a path has begun.
pub open spec fn counted(text: Seq<char>, fresh: bool) -> Seq<char>
    decreases text.len(),
{
    if text.len() == 0 || text[0] == '/' {
        text
    } else if fresh && is_digit(text[0]) {
        let n = digits_ahead(text) as int;
        let rest = text.skip(n);
        if !(0 < n <= text.len()) {
            text
        } else {
            match counted_word(rest) {
                Some(i) => {
                    let word = COUNTED_PL@[i].0@;
                    text.take(n) + COUNTED_PL@[i].1@ + counted(
                        rest.skip(word.len() as int),
                        opens_number(word.last()),
                    )
                },
                None => text.take(n) + counted(rest, false),
            }
        }
    } else {
        seq![text[0]] + counted(text.skip(1), opens_number(text[0]))
    }
}

/// The message in Polish.
pub open spec fn polish(message: Seq<char>) -> Seq<char> {
    match exact_translation(message, 0) {
        Some(translation) => translation,
        None => match frame(message, 0) {
            Some(i) => {
                let (before, before_pl, after, after_pl) = FRAMED_PL@[i];
                before_pl@ + message.subrange(
                    before@.len() as int,
                    message.len() - after@.len(),
                ) + after_pl@
            },
            None => match beginning(LEADING_PL@, message, 0) {
                Some(i) => LEADING_PL@[i].1@ + message.skip(LEADING_PL@[i].0@.len() as int),
                None => match beginning(COUNTING_PL@, message, 0) {
                    Some(i) => COUNTING_PL@[i].1@ + counted(
                        message.skip(COUNTING_PL@[i].0@.len() as int),
                        true,
                    ),
                    None => counted(message, true),
                },
            },
        },
    }
}

pub open spec fn localized(message: Seq<char>, locale: Seq<char>) -> Seq<char> {
    if locale == "pl"@ {
        polish(message)
    } else {
        message
    }
}

fn find_exact(message: &str) -> (r: Option<&'static str>)
    ensures
        match exact_translation(message@, 0) {
            Some(t) => r matches Some(s) && s@ == t,
            None => r is None,
        },
{
    let mut i: usize = 0;
    while i < EXACT_PL.len()
        invariant
            i <= EXACT_PL@.len(),
            exact_translation(message@, i as int) == exact_translation(message@, 0),
        decreases EXACT_PL@.len() - i,
    {
        if same_text(EXACT_PL[i].0, message) {
            return Some(EXACT_PL[i].1);
        }
        i += 1;
    }
    None
}

fn find_beginning(table: &[(&'static str, &'static str)], text: &[char]) -> (r: Option<usize>)
    ensures
        match beginning(table@, text@, 0) {
            Some(i) => 0 <= i < table@.len() && r == Some(i as usize) && has_prefix(
                text@,
                table@[i].0@,
            ),
            None => r is None,
        },
{
    let mut i: usize = 0;
    while i < table.len()
        invariant
            i <= table@.len(),
            beginning(table@, text@, i as int) == beginning(table@, text@, 0),
        decreases table@.len() - i,
    {
        let before: Vec<char> = chars_of(table[i].0);
        if starts_with(text, &before) {
            return Some(i);
        }
        i += 1;
    }
    None
}

fn find_frame(text: &[char]) -> (r: Option<usize>)
    ensures
        match frame(text@, 0) {
            Some(i) => 0 <= i < FRAMED_PL@.len() && r == Some(i as usize) && is_framed(text@, i),
            None => r is None,
        },
{
    let mut i: usize = 0;
    while i < FRAMED_PL.len()
        invariant
            i <= FRAMED_PL@.len(),
            frame(text@, i as int) == frame(text@, 0),
        decreases FRAMED_PL@.len() - i,
    {
        let before: Vec<char> = chars_of(FRAMED_PL[i].0);
        let after: Vec<char> = chars_of(FRAMED_PL[i].2);
        if starts_with(text, &before) && after.len() <= text.len() - before.len() {
            let end: &[char] = slice_subrange(text, text.len() - after.len(), text.len());
            assert(end@ =~= text@.skip(text@.len() - after@.len()));
            if same(end, &after) {
                return Some(i);
            }
        }
        i += 1;
    }
    None
}

fn ends_word(rest: &[char]) -> (r: bool)
    ensures
        r == word_ends(rest@),
{
    if rest.len() == 0 {
        return true;
    }
    let c: char = rest[0];
    c == ' ' || c == ',' || c == ';' || c == ':' || c == ')' || c == '…' || c == '\n' || (c == '.'
        && (rest.len() == 1 || rest[1] == ' ' || rest[1] == '\n'))
}

fn find_counted_word(rest: &[char]) -> (r: Option<(Vec<char>, Vec<char>)>)
    ensures
        match counted_word(rest@) {
            Some(i) => r matches Some((word, translation)) && word@ == COUNTED_PL@[i].0@
                && translation@ == COUNTED_PL@[i].1@ && word@.len() > 0 && word@.len() <= rest@.len(),
            None => r is None,
        },
{
    match find_beginning(COUNTED_PL.as_slice(), rest) {
        Some(i) => {
            let word: Vec<char> = chars_of(COUNTED_PL[i].0);
            let n: usize = word.len();
            if n == 0 {
                return None;
            }
            let after: &[char] = slice_subrange(rest, n, rest.len());
            assert(after@ =~= rest@.skip(n as int));
            if word[n - 1] == ' ' || ends_word(after) {
                Some((word, chars_of(COUNTED_PL[i].1)))
            } else {
                None
            }
        },
        None => None,
    }
}

proof fn lemma_digits_ahead(text: Seq<char>, n: int)
    requires
        0 <= n <= text.len(),
        forall|i: int| 0 <= i < n ==> is_digit(#[trigger] text[i]),
        n < text.len() ==> !is_digit(text[n]),
    ensures
        digits_ahead(text) == n,
    decreases n,
{
    if n > 0 {
        assert(is_digit(text[0]));
        let rest = text.skip(1);
        assert forall|i: int| 0 <= i < n - 1 implies is_digit(#[trigger] rest[i]) by {
            assert(rest[i] == text[i + 1]);
        }
        lemma_digits_ahead(rest, n - 1);
    }
}

fn count_digits(text: &[char], from: usize) -> (r: usize)
    requires
        from <= text@.len(),
    ensures
        r == digits_ahead(text@.skip(from as int)),
        r <= text@.len() - from,
{
    let ghost ahead = text@.skip(from as int);
    let mut n: usize = 0;
    while n < text.len() - from && '0' <= text[from + n] && text[from + n] <= '9'
        invariant
            from <= text@.len(),
            n <= text@.len() - from,
            ahead == text@.skip(from as int),
            forall|i: int| 0 <= i < n ==> is_digit(#[trigger] ahead[i]),
        decreases text@.len() - n,
    {
        assert(ahead[n as int] == text@[from + n]);
        n += 1;
    }
    proof {
        if n < ahead.len() {
            assert(ahead[n as int] == text@[from + n]);
        }
        lemma_digits_ahead(ahead, n as int);
    }
    n
}

/// Append the text from a position on, with the words after its numbers translated.
fn translate_counts(text: &[char], from: usize, out: &mut Vec<char>)
    requires
        from <= text@.len(),
    ensures
        final(out)@ == old(out)@ + counted(text@.skip(from as int), true),
{
    let ghost before = out@;
    let mut i: usize = from;
    let mut fresh: bool = true;
    while i < text.len() && text[i] != '/'
        invariant
            from <= i <= text@.len(),
            before + counted(text@.skip(from as int), true) == out@ + counted(
                text@.skip(i as int),
                fresh,
            ),
        decreases text@.len() - i,
    {
        let ghost ahead = text@.skip(i as int);
        let ghost so_far = out@;
        let c: char = text[i];
        assert(ahead[0] == c);
        if fresh && '0' <= c && c <= '9' {
            let n: usize = count_digits(text, i);
            let number: &[char] = slice_subrange(text, i, i + n);
            assert(number@ =~= ahead.take(n as int));
            let rest: &[char] = slice_subrange(text, i + n, text.len());
            assert(rest@ =~= ahead.skip(n as int));
            assert(rest@ =~= text@.skip(i + n));
            extend_chars(out, number);
            match find_counted_word(rest) {
                Some((word, translation)) => {
                    extend_chars(out, &translation);
                    assert(rest@.skip(word@.len() as int) =~= text@.skip(i + n + word@.len()));
                    fresh = word[word.len() - 1] == ' ' || word[word.len() - 1] == '(';
                    i = i + n + word.len();
                    assert(out@ + counted(text@.skip(i as int), fresh) =~= so_far + counted(
                        ahead,
                        true,
                    ));
                },
                None => {
                    fresh = false;
                    i = i + n;
                    assert(out@ + counted(text@.skip(i as int), fresh) =~= so_far + counted(
                        ahead,
                        true,
                    ));
                },
            }
        } else {
            let ghost was_fresh = fresh;
            out.push(c);
            fresh = c == ' ' || c == '(';
            i += 1;
            assert(ahead.skip(1) =~= text@.skip(i as int));
            assert(out@ + counted(text@.skip(i as int), fresh) =~= so_far + counted(
                ahead,
                was_fresh,
            ));
        }
    }
    let tail: &[char] = slice_subrange(text, i, text.len());
    assert(tail@ =~= text@.skip(i as int));
    extend_chars(out, tail);
}

/// The message in the language of the user.
pub fn runtime(message: &str, locale: &str) -> (r: String)
    ensures
        r@ == localized(message@, locale@),
{
    if !same_text(locale, "pl") {
        return message.to_owned();
    }
    match find_exact(message) {
        Some(translation) => {
            return translation.to_owned();
        },
        None => {},
    }
    let text: Vec<char> = chars_of(message);
    match find_frame(&text) {
        Some(i) => {
            let before: Vec<char> = chars_of(FRAMED_PL[i].0);
            let after: Vec<char> = chars_of(FRAMED_PL[i].2);
            let mut out: Vec<char> = chars_of(FRAMED_PL[i].1);
            let detail: &[char] = slice_subrange(&text, before.len(), text.len() - after.len());
            extend_chars(&mut out, detail);
            extend_chars(&mut out, &chars_of(FRAMED_PL[i].3));
            return string_of(&out);
        },
        None => {},
    }
    match find_beginning(LEADING_PL.as_slice(), &text) {
        Some(i) => {
            let before: Vec<char> = chars_of(LEADING_PL[i].0);
            let mut out: Vec<char> = chars_of(LEADING_PL[i].1);
            let detail: &[char] = slice_subrange(&text, before.len(), text.len());
            assert(detail@ =~= text@.skip(before@.len() as int));
            extend_chars(&mut out, detail);
            return string_of(&out);
        },
        None => {},
    }
    match find_beginning(COUNTING_PL.as_slice(), &text) {
        Some(i) => {
            let before: Vec<char> = chars_of(COUNTING_PL[i].0);
            let mut out: Vec<char> = chars_of(COUNTING_PL[i].1);
            translate_counts(&text, before.len(), &mut out);
            string_of(&out)
        },
        None => {
            let mut out: Vec<char> = Vec::new();
            translate_counts(&text, 0, &mut out);
            assert(text@.skip(0) =~= text@);
            assert(out@ =~= counted(text@, true));
            string_of(&out)
        },
    }
}

/// Text in which no number is directly followed by a known word stays as it is.
proof fn lemma_nothing_counted(text: Seq<char>, fresh: bool)
    requires
        forall|i: int|
            0 <= i < text.len() && is_digit(#[trigger] text[i]) ==> counted_word(text.skip(i + 1))
                is None,
    ensures
        counted(text, fresh) == text,
    decreases text.len(),
{
    if text.len() > 0 && text[0] != '/' {
        if fresh && is_digit(text[0]) {
            let n = digits_ahead(text) as int;
            lemma_digit_run(text);
            let rest = text.skip(n);
            assert(is_digit(text[n - 1]));
            assert(text.skip(n - 1 + 1) =~= rest);
            assert forall|i: int| 0 <= i < rest.len() && is_digit(
                #[trigger] rest[i],
            ) implies counted_word(rest.skip(i + 1)) is None by {
                assert(is_digit(text[i + n]));
                assert(rest.skip(i + 1) =~= text.skip(i + n + 1));
            }
            lemma_nothing_counted(rest, false);
            assert(text.take(n) + rest =~= text);
        } else {
            let rest = text.skip(1);
            assert forall|i: int| 0 <= i < rest.len() && is_digit(
                #[trigger] rest[i],
            ) implies counted_word(rest.skip(i + 1)) is None by {
                assert(is_digit(text[i + 1]));
                assert(rest.skip(i + 1) =~= text.skip(i + 1 + 1));
            }
            lemma_nothing_counted(rest, opens_number(text[0]));
            assert(seq![text[0]] + rest =~= text);
        }
    }
}

proof fn lemma_digit_run(text: Seq<char>)
    ensures
        digits_ahead(text) <= text.len(),
        forall|i: int| 0 <= i < digits_ahead(text) ==> is_digit(#[trigger] text[i]),
        text.len() > 0 && is_digit(text[0]) ==> digits_ahead(text) > 0,
    decreases text.len(),
{
    if text.len() > 0 && is_digit(text[0]) {
        let rest = text.skip(1);
        lemma_digit_run(rest);
        assert forall|i: int| 0 <= i < digits_ahead(text) implies is_digit(#[trigger] text[i]) by {
            if i > 0 {
                assert(rest[i - 1] == text[i]);
            }
        }
    }
}

/// What is not known is preserved: a text that is no known message, has no known beginning and no
/// number before a known word comes out as it went in, and every text does in another language.
pub proof fn unknown_text_is_preserved(message: Seq<char>, locale: Seq<char>)
    requires
        locale == "pl"@ ==> {
            &&& exact_translation(message, 0) is None
            &&& frame(message, 0) is None
            &&& beginning(LEADING_PL@, message, 0) is None
            &&& beginning(COUNTING_PL@, message, 0) is None
            &&& forall|i: int|
                0 <= i < message.len() && is_digit(#[trigger] message[i]) ==> counted_word(
                    message.skip(i + 1),
                ) is None
        },
    ensures
        localized(message, locale) == message,
{
    if locale == "pl"@ {
        lemma_nothing_counted(message, true);
    }
}

/// A detail after a known beginning comes back unchanged, whatever it holds: only the beginning is
/// translated. The same holds of a detail between a known beginning and its end.
pub proof fn details_are_preserved(message: Seq<char>, i: int)
    requires
        exact_translation(message, 0) is None,
    ensures
        frame(message, 0) is None && beginning(LEADING_PL@, message, 0) == Some(i) ==> {
            let n = LEADING_PL@[i].0@.len() as int;
            &&& message == LEADING_PL@[i].0@ + message.skip(n)
            &&& localized(message, "pl"@) == LEADING_PL@[i].1@ + message.skip(n)
        },
        frame(message, 0) == Some(i) ==> {
            let (before, before_pl, after, after_pl) = FRAMED_PL@[i];
            let detail = message.subrange(before@.len() as int, message.len() - after@.len());
            &&& message == before@ + detail + after@
            &&& localized(message, "pl"@) == before_pl@ + detail + after_pl@
        },
{
    if frame(message, 0) == Some(i) {
        lemma_frame(message, 0);
        let (before, _, after, _) = FRAMED_PL@[i];
        let detail = message.subrange(before@.len() as int, message.len() - after@.len());
        assert(message.take(before@.len() as int) == before@);
        assert(message =~= message.take(before@.len() as int) + detail + message.skip(
            message.len() - after@.len(),
        ));
    } else if frame(message, 0) is None && beginning(LEADING_PL@, message, 0) == Some(i) {
        lemma_beginning(LEADING_PL@, message, 0);
        let n = LEADING_PL@[i].0@.len() as int;
        assert(message =~= message.take(n) + message.skip(n));
    }
}

proof fn lemma_beginning(table: Seq<(&'static str, &'static str)>, text: Seq<char>, from: int)
    requires
        0 <= from,
    ensures
        beginning(table, text, from) matches Some(i) ==> from <= i < table.len() && has_prefix(
            text,
            table[i].0@,
        ),
    decreases table.len() - from,
{
    if from < table.len() && !has_prefix(text, table[from].0@) {
        lemma_beginning(table, text, from + 1);
    }
}

proof fn lemma_frame(text: Seq<char>, from: int)
    requires
        0 <= from,
    ensures
        frame(text, from) matches Some(i) ==> from <= i < FRAMED_PL@.len() && is_framed(text, i),
    decreases FRAMED_PL@.len() - from,
{
    if from < FRAMED_PL@.len() && !is_framed(text, from) {
        lemma_frame(text, from + 1);
    }
}

/// No known word after a number holds a slash.
proof fn lemma_words_hold_no_slash(i: int)
    requires
        0 <= i < COUNTED_PL@.len(),
    ensures
        !COUNTED_PL@[i].0@.contains('/'),
{
    reveal_strlit(". You can connect normally now.");
    reveal_strlit("; ambiguous passwords requiring manual re-entry: ");
    reveal_strlit(" synchronized file(s)");
    reveal_strlit(" matching files");
    reveal_strlit(" unsafe path(s)");
    reveal_strlit(" path(s)");
    reveal_strlit(" item(s)");
    reveal_strlit(" file(s)");
    reveal_strlit(" files");
    reveal_strlit(" entries");
    reveal_strlit(" bytes.");
}

proof fn lemma_paths_are_kept(text: Seq<char>, fresh: bool, path: Seq<char>) -> (kept: Seq<char>)
    requires
        !text.contains('/'),
        path.len() > 0,
        path[0] == '/',
    ensures
        counted(text + path, fresh) == kept + path,
    decreases text.len(),
{
    let whole = text + path;
    if text.len() == 0 {
        assert(whole =~= path);
        assert(Seq::<char>::empty() + path =~= path);
        Seq::empty()
    } else {
        assert(whole[0] == text[0]);
        assert(text.contains(text[0]));
        if fresh && is_digit(text[0]) {
            let n = digits_ahead(whole) as int;
            lemma_digit_run(whole);
            assert(n <= text.len()) by {
                if n > text.len() {
                    assert(is_digit(whole[text.len() as int]));
                    assert(whole[text.len() as int] == '/');
                }
            }
            let rest = whole.skip(n);
            assert(rest =~= text.skip(n) + path);
            match counted_word(rest) {
                Some(i) => {
                    let word = COUNTED_PL@[i].0@;
                    lemma_beginning(COUNTED_PL@, rest, 0);
                    lemma_words_hold_no_slash(i);
                    let m = word.len() as int;
                    assert(m <= text.len() - n) by {
                        if m > text.len() - n {
                            assert(rest.take(m)[text.len() - n] == rest[text.len() - n]);
                            assert(rest[text.len() - n] == '/');
                            assert(word[text.len() - n] == '/');
                        }
                    }
                    let tail = text.skip(n + m);
                    assert(rest.skip(m) =~= tail + path);
                    lemma_skip_holds_no(text, n + m, '/');
                    let kept = lemma_paths_are_kept(tail, opens_number(word.last()), path);
                    let all = whole.take(n) + COUNTED_PL@[i].1@ + kept;
                    assert(all + path =~= whole.take(n) + COUNTED_PL@[i].1@ + (kept + path));
                    all
                },
                None => {
                    lemma_skip_holds_no(text, n, '/');
                    let kept = lemma_paths_are_kept(text.skip(n), false, path);
                    let all = whole.take(n) + kept;
                    assert(all + path =~= whole.take(n) + (kept + path));
                    all
                },
            }
        } else {
            assert(whole.skip(1) =~= text.skip(1) + path);
            lemma_skip_holds_no(text, 1, '/');
            let kept = lemma_paths_are_kept(text.skip(1), opens_number(text[0]), path);
            let all = seq![text[0]] + kept;
            assert(all + path =~= seq![text[0]] + (kept + path));
            all
        }
    }
}

proof fn lemma_skip_holds_no(s: Seq<char>, n: int, c: char)
    requires
        0 <= n <= s.len(),
        !s.contains(c),
    ensures
        !s.skip(n).contains(c),
{
    if s.skip(n).contains(c) {
        let i = choose|i: int| 0 <= i < s.skip(n).len() && s.skip(n)[i] == c;
        assert(s[i + n] == c);
    }
}

/// From its first slash on a message comes back unchanged: a path is never touched, whatever its
/// folders are called. `text` is what stands between the known beginning, if there is one, and the
/// path.
pub proof fn paths_are_preserved(
    beginning_of: Option<int>,
    text: Seq<char>,
    path: Seq<char>,
    message: Seq<char>,
)
    requires
        !text.contains('/'),
        path.len() > 0,
        path[0] == '/',
        message == match beginning_of {
            Some(i) => COUNTING_PL@[i].0@ + text + path,
            None => text + path,
        },
        exact_translation(message, 0) is None,
        frame(message, 0) is None,
        beginning(LEADING_PL@, message, 0) is None,
        beginning(COUNTING_PL@, message, 0) == beginning_of,
    ensures
        exists|kept: Seq<char>| #[trigger] (kept + path) == localized(message, "pl"@),
{
    let kept = lemma_paths_are_kept(text, true, path);
    match beginning_of {
        Some(i) => {
            let n = COUNTING_PL@[i].0@.len() as int;
            assert(message.skip(n) =~= text + path);
            let all = COUNTING_PL@[i].1@ + kept;
            assert(all + path =~= COUNTING_PL@[i].1@ + (kept + path));
        },
        None => {
            assert(kept + path == localized(message, "pl"@));
        },
    }
}

} // verus!
