//! All strings of the interface, Russian first and English second.
use vstd::prelude::*;

verus! {

/// A string in Russian and in English.
pub type Pair = (&'static str, &'static str);

// The main window.

pub const ESP: Pair = ("ESP", "ESP");

pub const TRAPS: Pair = ("Ловушки", "Traps");

pub const TELEPORT: Pair = ("Телепорт", "Teleport");

pub const TELEPORT_HINT: Pair = (
    "ПКМ мимо окон — телепорт персонажа в точку под курсором",
    "Right-click outside windows to teleport to the cursor",
);

pub const DEV: Pair = ("DEV", "DEV");

pub const DEV_HINT: Pair = (
    "Режим разработчика: путь лога, счётчики разбора,\n\
     сырые поля объектов и числа рамок ловушек.\n\
     Нужен при поиске смещений, в игре только мешает.",
    "Developer mode: log path, parser counters, raw object\n\
     fields and trap rectangle numbers.\n\
     Useful when hunting offsets, noise while playing.",
);

pub const LANGUAGE_HINT: Pair = (
    "Язык интерфейса. Имена полей игры не переводятся ни в одном:\n\
     Bounding, Updateable и moveSpeed зовутся так в её исходниках.",
    "Interface language. Game field names stay as they are in either:\n\
     Bounding, Updateable and moveSpeed are named so in its sources.",
);

pub const NO_PLAYERS: Pair = ("Игроки не найдены", "No players found");

pub const NO_LEVEL: Pair = ("Уровень не загружен", "No level loaded");

pub const REMOTE: Pair = ("Сетевой", "Remote");

pub const RESPAWN: Pair = ("Респавн", "Respawn");

// Summary of a level.

pub const LEVEL_TIME: Pair = ("уровень", "level");

pub const ATTEMPT_TIME: Pair = ("попытка", "attempt");

pub const DEATHS: Pair = ("смертей", "deaths");

pub const KILLS: Pair = ("убийств", "kills");

pub const SECONDS: Pair = ("с", "s");

// Cheats of a player.

pub const GOD: Pair = ("Бессмертие", "God");

pub const INF_JUMP: Pair = ("Беск. прыжок", "Inf jump");

pub const CROUCH_WALK: Pair = ("Ходить в приседе", "Walk while crouched");

pub const CROUCH_WALK_HINT: Pair = (
    "В HandleInput весь горизонтальный ввод стоит под if (!Crouching),\n\
     поэтому в приседе игра не разгоняет персонажа. Пишем moveSpeed (0xF0)\n\
     сами по стрелкам и A/D — перенос в ApplyGravity про присед не знает\n\
     и всё так же спрашивает MayWalk, так что столкновения на месте.",
    "In HandleInput every horizontal control sits under if (!Crouching),\n\
     so the game never accelerates a crouched character. We write moveSpeed\n\
     (0xF0) ourselves from the arrows and A/D — the actual move in\n\
     ApplyGravity knows nothing about crouching and still calls MayWalk,\n\
     so collisions stay exactly as the game intends.",
);

pub const SPEED: Pair = ("Скорость", "Speed");

pub const JUMP: Pair = ("Прыжок", "Jump");

pub const GRAVITY: Pair = ("Гравитация", "Gravity");

pub const RESET: Pair = ("Сброс", "Reset");

// The trap window.

pub const TRAP_MANAGER: Pair = ("Менеджер Ловушек", "Trap Manager");

pub const DRAW_TRAP_ESP: Pair = ("Рисовать ESP ловушек", "Draw trap ESP");

pub const LABELS: Pair = ("Подписи", "Labels");

pub const SHOW_RECTS: Pair = ("Показать рамки", "Show rectangles");

pub const SHOW_RECTS_HINT: Pair = (
    "Сырые источники рамки по каждому объекту класса:\n\
     0x50 — m_Bounding, кэш свойства Bounding;\n\
     0x70 — DrawRectangle, кадр в атласе (не мир!);\n\
     0x88 — Position в единицах физического движка;\n\
     масштаб (0x2C) и поворот (0x30).",
    "Raw rectangle sources for every object of the class:\n\
     0x50 — m_Bounding, the cache behind the Bounding property;\n\
     0x70 — DrawRectangle, the atlas frame (not the world!);\n\
     0x88 — Position in physics units;\n\
     scale (0x2C) and rotation (0x30).",
);

pub const RAW_FIELDS: Pair = ("Сырые поля", "Raw fields");

pub const RAW_FIELDS_HINT: Pair = (
    "Дамп 0x90..0x140 у первого объекта каждого класса.\n\
     Раскладку неразобранного типа по нему видно глазами:\n\
     значения по умолчанию из исходников узнаются сразу.",
    "Dump of 0x90..0x140 for the first object of each class.\n\
     An unmapped type gives itself away here by eye: default\n\
     values from the sources are recognisable at a glance.",
);

pub const TRAPS_TOTAL: Pair = ("Всего ловушек", "Traps total");

pub const SIM_UNIT: Pair = ("единица симуляции", "simulation unit");

pub const NO_RECT: Pair = (
    "Рамка есть только у {with} из {total} — остальные ESP не рисует",
    "Only {with} of {total} have a rectangle — ESP skips the rest",
);

pub const UPDATEABLE: Pair = ("Обновление", "Update");

pub const UPDATEABLE_HINT: Pair = (
    "Updateable (0x45) — вызывает ли игра Update этого объекта.\n\
     Самый действенный переключатель: у Spinner в Update и вращение,\n\
     и проверка на убийство. Сняв его, объект замирает целиком.",
    "Updateable (0x45) — whether the game calls this object's Update.\n\
     The most effective switch there is: a Spinner's Update holds both\n\
     its rotation and its kill check. Clear it and the object freezes.",
);

pub const CAN_TRIGGER: Pair = ("Срабатывание", "Trigger");

pub const CAN_TRIGGER_HINT: Pair = (
    "m_CanTrigger (0xAC) у BoomTrap.",
    "m_CanTrigger (0xAC) on BoomTrap.",
);

pub const BOOM_SPEED_HINT: Pair = (
    "Speed (0xA4) у BoomTrap — пишется во все объекты класса.",
    "Speed (0xA4) on BoomTrap — written to every object of the class.",
);

pub const GROUP_ALIGNED: Pair = (
    "Пишется во все объекты класса",
    "Written to every object of the class",
);

pub const GROUP_MIXED: Pair = (
    "Значения в группе разошлись — клик выровняет все",
    "Values in the group diverged — a click aligns them all",
);

pub const CLASS_TOOLTIP: Pair = (
    "ObjectType (0x10): {kind}\nName (0x20): {name}\nTextureName (0x0C): {texture}\n\
     ZoneName (0x1C): {zone}\nТаблица методов: 0x{class:X}\n\nЧитаем поля: {fields}\n\
     Объектов на уровне: {count}",
    "ObjectType (0x10): {kind}\nName (0x20): {name}\nTextureName (0x0C): {texture}\n\
     ZoneName (0x1C): {zone}\nMethod table: 0x{class:X}\n\nFields read: {fields}\n\
     Objects on the level: {count}",
);

// Diagnostics.

pub const LOG_AT: Pair = ("Лог", "Log");

pub const LOG_FAILED: Pair = (
    "Файл лога не открылся, пишем только в отладчик",
    "Log file could not be opened, writing to the debugger only",
);

pub const LOG_NO_REASON: Pair = ("причина не записана", "reason not recorded");

pub const OBJECTS: Pair = ("объектов", "objects");

pub const CLASS: Pair = ("класс", "class");

pub const CLASS_UNKNOWN: Pair = ("не опознан", "unknown");

pub const SCREEN: Pair = ("экран", "screen");

pub const CAMERA: Pair = ("камера", "camera");

pub const CAMERA_NONE: Pair = ("нет", "none");

pub const CAMERA_UNREADABLE: Pair = ("не читается", "unreadable");

pub const ONLINE: Pair = ("сеть", "online");

pub const OFFLINE: Pair = ("одиночная", "single");

pub const UNAVAILABLE: Pair = ("недоступно", "unavailable");

// State of the hook.

pub const SCANNING: Pair = ("Сканирование памяти...", "Scanning memory...");

pub const WAITING: Pair = (
    "Ожидание игры: метод ещё не вызывался",
    "Waiting for the game: the method has not been called yet",
);

pub const AMBIGUOUS: Pair = ("Сигнатура неоднозначна", "Signature is ambiguous");

pub const AMBIGUOUS_HINT: Pair = (
    "Хук не установлен намеренно, см. лог",
    "The hook is deliberately not installed, see the log",
);

pub const HOOK_ERROR: Pair = ("Ошибка MinHook", "MinHook error");

pub const GAVE_UP: Pair = (
    "Сигнатура не найдена, попытки исчерпаны",
    "Signature not found, out of attempts",
);

pub const SEARCH_AGAIN: Pair = ("Искать снова", "Search again");

} // verus!
